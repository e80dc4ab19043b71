use std::sync::Arc;

use omf::error::{Error, Limit};
use omf::file::reader::{check_version, default_memory_limit, LimitedRead};
use omf::file::sub_file::{SeekPos, SubFileError};
use omf::file::writer::check_header;
use omf::file::{Compression, Limits, ReadAt, SubFile};
use omf::array_type;
use omf::zip_container::FileType;

#[test]
fn read_at_vec_middle() {
    let data = vec![1, 2, 3, 4, 5];
    let mut buf = [0; 3];
    assert_eq!(data.read_at(&mut buf, 1).unwrap(), 3);
    assert_eq!(&buf, &[2, 3, 4]);
}

#[test]
fn read_at_vec_end() {
    let data = vec![1, 2, 3, 4, 5];
    let mut buf = [0; 3];
    assert_eq!(data.read_at(&mut buf, 3).unwrap(), 2);
    assert_eq!(&buf, &[4, 5, 0]);
}

#[test]
fn read_at_vec_at_end_reads_nothing() {
    let data = vec![1, 2, 3];
    let mut buf = [9; 2];
    assert_eq!(data.read_at(&mut buf, 3).unwrap(), 0);
    assert_eq!(&buf, &[9, 9]);
    assert_eq!(data.size().unwrap(), 3);
}

#[test]
fn subfile() {
    let base = Arc::new(b"0123456789".to_vec());
    let mut t = SubFile::new(base.clone(), 2, 6).unwrap();
    let mut buf = [0; 5];
    t.read_exact(&mut buf).unwrap();
    assert_eq!(&buf, b"23456");
    let mut buf = [0; 2];
    t.seek(SeekPos::Current(-2)).unwrap();
    t.read_exact(&mut buf).unwrap();
    assert_eq!(&buf, b"56");
    t.seek(SeekPos::Current(-3)).unwrap();
    t.read_exact(&mut buf).unwrap();
    assert_eq!(&buf, b"45");
    t.seek(SeekPos::Start(0)).unwrap();
    t.read_exact(&mut buf).unwrap();
    assert_eq!(&buf, b"23");
    let mut buf = [0; 10];
    let e = t.read_exact(&mut buf).unwrap_err();
    assert!(matches!(e, SubFileError::UnexpectedEof));
    let e = t.seek(SeekPos::End(-10)).unwrap_err();
    assert!(matches!(e, SubFileError::InvalidInput));
}

#[test]
fn subfile_lengths_and_sub_files() {
    let base = Arc::new(b"0123456789".to_vec());
    let t = SubFile::new(base.clone(), 2, 6).unwrap();
    assert_eq!(t.len(), 6);
    assert!(!t.is_empty());
    assert_eq!(t.remaining(), 6);
    let mut s = t.sub_file(3, 4).unwrap();
    assert_eq!(s.len(), 4);
    let mut buf = [0; 4];
    s.read_exact(&mut buf).unwrap();
    assert_eq!(&buf, b"5678");
    assert_eq!(s.remaining(), 0);
    assert_eq!(s.stream_position().unwrap(), 4);
    assert!(SubFile::new(base, 10, 0).unwrap().is_empty());
}

#[test]
fn subfile_read_stops_at_end_and_seek_past_end() {
    let base = Arc::new(b"0123456789".to_vec());
    let mut t = SubFile::new(base, 1, 3).unwrap();
    let mut buf = [0; 8];
    assert_eq!(t.read(&mut buf).unwrap(), 3);
    assert_eq!(&buf[..3], b"123");
    assert_eq!(t.read(&mut buf).unwrap(), 0);
    assert_eq!(t.seek(SeekPos::End(5)).unwrap(), 8);
    assert_eq!(t.remaining(), 0);
    assert_eq!(t.read(&mut buf).unwrap(), 0);
    assert!(matches!(t.seek(SeekPos::Start(u64::MAX)).unwrap_err(), SubFileError::InvalidInput));
    assert_eq!(t.stream_position().unwrap(), 8);
}

#[test]
fn limits() {
    let l = Limits::no_limits();
    assert_eq!(l.json_bytes, None);
    assert_eq!(l.image_bytes, None);
    assert_eq!(l.image_dim, None);
    assert_eq!(l.validation, None);
    let d = Limits::default();
    assert_eq!(d.json_bytes, Some(1024 * 1024));
    assert_eq!(d.image_bytes, Some(default_memory_limit()));
    assert_eq!(d.image_dim, None);
    assert_eq!(d.validation, Some(100));
    if usize::BITS == 64 {
        assert_eq!(default_memory_limit(), 16 * 1024 * 1024 * 1024);
    }
}

#[test]
fn compression_levels() {
    assert_eq!(Compression::new(3).level(), 3);
    assert_eq!(Compression::new(0).level(), 0);
    assert_eq!(Compression::new(9).level(), 9);
    assert_eq!(Compression::new(10).level(), 9);
    assert_eq!(Compression::new(u32::MAX).level(), 9);
    assert_eq!(Compression::none().level(), 0);
    assert_eq!(Compression::fast().level(), 1);
    assert_eq!(Compression::best().level(), 9);
    assert_eq!(Compression::default().level(), 6);
}

#[test]
fn header_checks() {
    let png = [0x89, 0x50, 0x4E, 0x47, 0x0D, 0x0A, 0x1A, 0x0A, 1, 2, 3];
    let jpeg = [0xFF, 0xD8, 0xFF, 0xE0];
    let parquet = b"PAR1 some data PAR1";
    assert!(matches!(check_header::<array_type::Image>(&png), Ok(FileType::Png)));
    assert!(matches!(check_header::<array_type::Image>(&jpeg), Ok(FileType::Jpeg)));
    assert!(matches!(check_header::<array_type::Image>(parquet), Err(Error::NotImageData)));
    assert!(matches!(check_header::<array_type::Image>(&png[..7]), Err(Error::NotImageData)));
    assert!(matches!(check_header::<array_type::Scalar>(parquet), Ok(FileType::Parquet)));
    assert!(matches!(check_header::<array_type::Vertex>(b"PAR1"), Ok(FileType::Parquet)));
    assert!(matches!(check_header::<array_type::Scalar>(b"PAR1 no end"), Err(Error::NotParquetData)));
    assert!(matches!(check_header::<array_type::Text>(&png), Err(Error::NotParquetData)));
    assert!(matches!(check_header::<array_type::Text>(b"PAR"), Err(Error::NotParquetData)));
}

#[test]
fn version_checks() {
    assert!(check_version([2, 0], None).is_ok());
    assert!(check_version([1, 5], None).is_ok());
    assert!(check_version([2, 0], Some("alpha.2")).is_ok());
    assert!(matches!(check_version([2, 1], None), Err(Error::NewerVersion(2, 1))));
    assert!(matches!(check_version([3, 0], None), Err(Error::NewerVersion(3, 0))));
    match check_version([2, 0], Some("alpha.1")) {
        Err(Error::PreReleaseVersion(2, 0, pre)) => assert_eq!(pre, "alpha.1"),
        other => panic!("unexpected {other:?}"),
    }
    assert!(matches!(check_version([9, 9], Some("beta")), Err(Error::PreReleaseVersion(9, 9, _))));
}

#[test]
fn limited_read() {
    let mut l = LimitedRead::new(10);
    assert_eq!(l.after_read(4).unwrap(), 4);
    assert_eq!(l.after_read(0).unwrap(), 0);
    assert_eq!(l.after_read(5).unwrap(), 5);
    assert_eq!(l.after_read(1).unwrap(), 1);
    assert_eq!(l.after_read(0).unwrap(), 0);
    assert!(matches!(l.after_read(1), Err(Error::LimitExceeded(Limit::JsonBytes))));
    let mut e = LimitedRead::new(4);
    assert_eq!(e.after_read(4).unwrap(), 4);
    let mut m = LimitedRead::new(3);
    assert!(matches!(m.after_read(100), Err(Error::LimitExceeded(Limit::JsonBytes))));
}

#[test]
fn subfile_past_the_data() {
    let base = Arc::new(b"0123456789".to_vec());
    let mut t = SubFile::new(base.clone(), 8, 5).unwrap();
    assert_eq!(t.len(), 5);
    let mut buf = [0; 8];
    assert_eq!(t.read(&mut buf).unwrap(), 2);
    assert_eq!(&buf[..2], b"89");
    assert_eq!(t.read(&mut buf).unwrap(), 0);
    let mut buf = [0; 3];
    t.seek(SeekPos::Start(0)).unwrap();
    let e = t.read_exact(&mut buf).unwrap_err();
    assert!(matches!(e, SubFileError::UnexpectedEof));
    let mut u = SubFile::new(base, 12, 4).unwrap();
    assert_eq!(u.remaining(), 4);
    assert_eq!(u.read(&mut buf).unwrap(), 0);
}

#[test]
fn read_at_vec_past_end() {
    let data = vec![1u8, 2, 3, 4, 5];
    let mut buf = [9u8; 3];
    assert_eq!(data.read_at(&mut buf, 10).unwrap(), 0);
    assert_eq!(buf, [9, 9, 9]);
    assert_eq!(data.read_at(&mut buf, 5).unwrap(), 0);
}
