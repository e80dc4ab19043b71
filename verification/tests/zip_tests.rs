use omf::error::Error;
use omf::zip_container::{get_version, version_comment, Archive, Builder, FileSpan, FileType, ZipMember};

#[test]
fn versions() {
    assert_eq!(
        get_version("Open Mining Format 2.0".as_bytes()),
        Some(([2, 0], None))
    );
    assert_eq!(
        get_version("Open Mining Format 2.0-alpha.1".as_bytes()),
        Some(([2, 0], Some("alpha.1".to_string())))
    );
    assert_eq!(get_version("Something else 1.0".as_bytes()), None);
    assert_eq!(get_version(b"Something not UTF-8 \xff"), None);
}

#[test]
fn version_edge_cases() {
    assert_eq!(get_version(b"Open Mining Format 2.0.1"), None);
    assert_eq!(get_version(b"Open Mining Format 2"), None);
    assert_eq!(get_version(b"Open Mining Format 2."), None);
    assert_eq!(get_version(b"Open Mining Format +2.+10"), Some(([2, 10], None)));
    assert_eq!(get_version(b"Open Mining Format 4294967296.0"), None);
    assert_eq!(get_version(b"Open Mining Format 2.0-"), Some(([2, 0], Some(String::new()))));
    assert_eq!(
        get_version(b"Open Mining Format 2.0-rc.1-extra"),
        Some(([2, 0], Some("rc.1".to_string())))
    );
    assert_eq!(get_version(b"Open Mining Format2.0"), None);
}

#[test]
fn version_comment_round_trip() {
    let c = version_comment(2, 0, Some("alpha.2"));
    assert_eq!(c, "Open Mining Format 2.0-alpha.2");
    assert_eq!(get_version(c.as_bytes()), Some(([2, 0], Some("alpha.2".to_string()))));
    let c = version_comment(13, 4567, None);
    assert_eq!(c, "Open Mining Format 13.4567");
    assert_eq!(get_version(c.as_bytes()), Some(([13, 4567], None)));
    let c = version_comment(u32::MAX, 0, Some("é"));
    assert_eq!(get_version(c.as_bytes()), Some(([u32::MAX, 0], Some("é".to_string()))));
}

#[test]
fn builder_names() {
    let mut b = Builder::new();
    assert_eq!(b.open(FileType::Parquet), "1.parquet");
    assert_eq!(b.open(FileType::Png), "2.png");
    assert_eq!(b.open(FileType::Index), "index.json.gz");
    assert_eq!(b.open(FileType::Jpeg), "3.jpg");
    assert_eq!(b.filenames(), &["1.parquet", "2.png", "index.json.gz", "3.jpg"]);
    assert_eq!(b.finish(2, 0, None), "Open Mining Format 2.0");
}

fn member(name: &str, stored: bool, offset: u64, size: u64) -> ZipMember {
    ZipMember { name: name.to_owned(), stored, span: FileSpan { offset, size } }
}

#[test]
fn archive_open() {
    let members = vec![
        member("index.json.gz", true, 10, 20),
        member("1.parquet", true, 40, 5),
        member("1.parquet", true, 50, 6),
    ];
    let a = Archive::new(members, b"Open Mining Format 2.0-alpha.2").unwrap();
    assert_eq!(a.version(), ([2, 0], Some("alpha.2")));
    let s = a.span("1.parquet").unwrap();
    assert_eq!((s.offset, s.size), (50, 6));
    assert_eq!(a.span("index.json.gz").unwrap().size, 20);
    match a.span("2.parquet") {
        Err(Error::ZipMemberMissing(name)) => assert_eq!(name, "2.parquet"),
        other => panic!("unexpected {other:?}"),
    }
    let mut names = a.filenames();
    names.sort();
    assert_eq!(names, vec!["1.parquet".to_string(), "index.json.gz".to_string()]);
}

#[test]
fn archive_errors() {
    match Archive::new(vec![member("index.json.gz", true, 0, 1), member("x", false, 1, 1)], b"") {
        Err(Error::ZipError(m)) => assert_eq!(m, "members may not be compressed"),
        other => panic!("unexpected {:?}", other.map(|_| ())),
    }
    match Archive::new(vec![member("1.parquet", true, 0, 1)], b"Open Mining Format 2.0") {
        Err(Error::ZipMemberMissing(m)) => assert_eq!(m, "index.json.gz"),
        other => panic!("unexpected {:?}", other.map(|_| ())),
    }
    match Archive::new(vec![member("index.json.gz", true, 0, 1)], b"not omf \xff") {
        Err(Error::NotOmf(c)) => assert_eq!(c, "not omf \u{FFFD}"),
        other => panic!("unexpected {:?}", other.map(|_| ())),
    }
}

#[test]
fn builder_members_found_again() {
    let mut b = Builder::new();
    let names = vec![
        b.open(FileType::Parquet),
        b.open(FileType::Png),
        b.open(FileType::Parquet),
        b.open(FileType::Index),
    ];
    let comment = b.finish(2, 0, Some("alpha.2"));
    let members: Vec<ZipMember> = names
        .iter()
        .enumerate()
        .map(|(i, n)| member(n, true, 100 * i as u64, i as u64 + 1))
        .collect();
    let a = Archive::new(members, comment.as_bytes()).unwrap();
    for (i, n) in names.iter().enumerate() {
        let s = a.span(n).unwrap();
        assert_eq!((s.offset, s.size), (100 * i as u64, i as u64 + 1));
    }
}
