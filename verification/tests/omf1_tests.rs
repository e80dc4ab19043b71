use omf::error::Error;
use omf::omf1::array::{
    category_index, color_from_le_bytes, segment_from_le_bytes, triangle_from_le_bytes,
    u64_from_le, HoldError,
};
use omf::omf1::category_handler::{
    iter_to_len, legend_colors, legend_strings, opaque_colors, CategoryHandler, Legend, LegendData,
};
use omf::omf1::error::{join, ModelType};
use omf::omf1::objects::{DataLocation, Key, LineSetSubtype, PointSetSubtype};
use omf::omf1::reader::read_header;
use omf::omf1::{detect, Converter, Omf1Error};
use omf::attribute::Location;
use omf::file::{Compression, Limits};

fn header(version: &[u8]) -> Vec<u8> {
    let mut h = vec![0x84, 0x83, 0x82, 0x81];
    let mut v = version.to_vec();
    v.resize(32, 0);
    h.extend(v);
    h.extend((0u8..16).collect::<Vec<_>>());
    h.extend(1234u64.to_le_bytes());
    h
}

#[test]
fn detect_prefix() {
    assert!(detect([0x84, 0x83, 0x82, 0x81, b'O', b'M', b'F', b'-']));
    assert!(!detect([0x84, 0x83, 0x82, 0x81, b'O', b'M', b'F', b'_']));
    assert!(!detect(*b"PK\x03\x04abcd"));
}

#[test]
fn header_reading() {
    let h = header(b"OMF-v0.9.0");
    let (key, start, version) = read_header::<()>(&h).unwrap();
    assert_eq!(key.value, "00010203-0405-0607-0809-0a0b0c0d0e0f");
    assert_eq!(start, 1234);
    assert_eq!(version, "OMF-v0.9.0");
}

#[test]
fn header_errors() {
    let h = header(b"OMF-v0.8.0");
    match read_header::<()>(&h) {
        Err(Error::Omf1(Omf1Error::UnsupportedVersion { version })) => assert_eq!(version, "OMF-v0.8.0"),
        other => panic!("unexpected {:?}", other.map(|_| ())),
    }
    assert!(matches!(read_header::<()>(&header(b"XYZ-v0.9.0")), Err(Error::Omf1(Omf1Error::NotOmf1))));
    assert!(matches!(read_header::<()>(&header(b"OMF")), Err(Error::Omf1(Omf1Error::NotOmf1))));
    assert!(matches!(read_header::<()>(&h[..59]), Err(Error::Omf1(Omf1Error::NotOmf1))));
    let mut bad_magic = header(b"OMF-v0.9.0");
    bad_magic[0] = 0;
    assert!(matches!(read_header::<()>(&bad_magic), Err(Error::Omf1(Omf1Error::NotOmf1))));
    // Invalid UTF-8 is replaced, and only trailing NULs are trimmed.
    match read_header::<()>(&header(b"OMF-\xff\0x")) {
        Err(Error::Omf1(Omf1Error::UnsupportedVersion { version })) => assert_eq!(version, "OMF-\u{FFFD}\0x"),
        other => panic!("unexpected {:?}", other.map(|_| ())),
    }
}

#[test]
fn key_from_bytes() {
    let k = Key::<()>::from_bytes([0xde, 0xad, 0xbe, 0xef, 0, 1, 2, 3, 0xff, 0x10, 9, 8, 7, 6, 5, 4]);
    assert_eq!(k.value, "deadbeef-0001-0203-ff10-090807060504");
    assert_eq!(Key::<()>::new("abc".to_owned()).value, "abc");
}

#[test]
fn little_endian_numbers() {
    let b = [1, 2, 3, 4, 5, 6, 7, 8];
    assert_eq!(u64_from_le(&b, 0, 8), u64::from_le_bytes(b));
    assert_eq!(u64_from_le(&b, 2, 4), 0x0403);
    assert_eq!(u64_from_le(&b, 3, 3), 0);
}

fn bytes<const N: usize>(values: &[i64]) -> [u8; N] {
    let v: Vec<u8> = values.iter().flat_map(|x| x.to_le_bytes()).collect();
    v.try_into().unwrap()
}

#[test]
fn segments_and_triangles() {
    assert_eq!(segment_from_le_bytes(bytes(&[0, 4294967295])).unwrap(), [0, u32::MAX]);
    match segment_from_le_bytes(bytes(&[5, -1])) {
        Err(Error::Omf1(Omf1Error::IndexOutOfRange { index })) => assert_eq!(index, -1),
        other => panic!("unexpected {other:?}"),
    }
    match segment_from_le_bytes(bytes(&[4294967296, -7])) {
        Err(Error::Omf1(Omf1Error::IndexOutOfRange { index })) => assert_eq!(index, 4294967296),
        other => panic!("unexpected {other:?}"),
    }
    assert_eq!(triangle_from_le_bytes(bytes(&[1, 2, 3])).unwrap(), [1, 2, 3]);
    match triangle_from_le_bytes(bytes(&[1, 2, i64::MIN])) {
        Err(Error::Omf1(Omf1Error::IndexOutOfRange { index })) => assert_eq!(index, i64::MIN),
        other => panic!("unexpected {other:?}"),
    }
}

#[test]
fn colors_clamp() {
    assert_eq!(color_from_le_bytes(bytes(&[-5, 128, 300])).unwrap(), Some([0, 128, 255, 255]));
    assert_eq!(color_from_le_bytes(bytes(&[0, 255, i64::MAX])).unwrap(), Some([0, 255, 255, 255]));
}

#[test]
fn category_indices() {
    assert_eq!(category_index(-1).unwrap(), None);
    assert_eq!(category_index(0).unwrap(), Some(0));
    assert_eq!(category_index(4294967295).unwrap(), Some(u32::MAX));
    assert!(matches!(category_index(-2), Err(Error::Omf1(Omf1Error::IndexOutOfRange { index: -2 }))));
    assert!(matches!(category_index(4294967296), Err(Error::Omf1(Omf1Error::IndexOutOfRange { .. }))));
}

#[test]
fn hold_error() {
    let mut h: HoldError<i32, &str> = HoldError::new();
    assert_eq!(h.next(Some(Ok(1))), Some(1));
    assert_eq!(h.next(Some(Err("bad"))), None);
    assert_eq!(h.next(Some(Ok(2))), Some(2));
    assert_eq!(h.next(None), None);
    assert_eq!(h.finish(), Err("bad"));
    let h2: HoldError<i32, &str> = HoldError::new();
    assert_eq!(h2.finish(), Ok(()));
}

#[test]
fn join_names() {
    assert_eq!(join(&[]), "none");
    assert_eq!(join(&[ModelType::Project]), "Project");
    assert_eq!(join(&[ModelType::ScalarArray, ModelType::ColorArray]), "ScalarArray or ColorArray");
    assert_eq!(
        join(&[ModelType::Int3Array, ModelType::ColorArray, ModelType::Legend]),
        "Int3Array, ColorArray, or Legend"
    );
    assert_eq!(ModelType::DateTimeColormap.name(), "DateTimeColormap");
}

#[test]
fn pad_to_length() {
    assert_eq!(iter_to_len(5, vec![1, 2], 0), vec![1, 2, 0, 0, 0]);
    assert_eq!(iter_to_len(2, vec![1, 2, 3], 0), vec![1, 2]);
    assert_eq!(iter_to_len(0, vec![1], 9), Vec::<i32>::new());
    assert_eq!(
        iter_to_len(3, vec!["a".to_string()], String::new()),
        vec!["a".to_string(), String::new(), String::new()]
    );
}

fn legend(name: &str, data: LegendData<()>) -> Legend<()> {
    Legend { name: name.to_owned(), description: String::new(), data }
}

fn strings(v: &[&str]) -> Vec<String> {
    v.iter().map(|s| s.to_string()).collect()
}

#[test]
fn category_legends() {
    let mut h = CategoryHandler::new(2);
    h.add(legend("numbers", LegendData::Other((), 4)));
    h.add(legend("short", LegendData::String(strings(&["a", "b", "c"]))));
    h.add(legend("long", LegendData::String(strings(&["alpha", "beta", "gamma"]))));
    h.add(legend("dups", LegendData::String(strings(&["x", "x", "", "y"]))));
    h.add(legend("few colors", LegendData::Color(vec![[1, 2, 3], [1, 2, 3]])));
    h.add(legend("colors", LegendData::Color(vec![[1, 2, 3], [4, 5, 6]])));
    h.process();
    let (len, names, gradient, rest) = h.into_parts();
    assert_eq!(len, 4);
    assert_eq!(names, strings(&["a", "b", "c"]));
    assert_eq!(gradient, Some(vec![[1, 2, 3], [4, 5, 6]]));
    let rest: Vec<_> = rest.iter().map(|l| l.name.clone()).collect();
    assert_eq!(rest, strings(&["numbers", "long", "dups", "few colors"]));
}

#[test]
fn category_defaults() {
    let mut h: CategoryHandler<()> = CategoryHandler::new(3);
    h.add(legend("numbers", LegendData::Other((), 2)));
    h.process();
    assert_eq!(h.len(), 4);
    let (_, names, gradient, rest) = h.into_parts();
    assert_eq!(names, strings(&["Category0", "Category1", "Category2", "Category3"]));
    assert_eq!(gradient, None);
    assert_eq!(rest.len(), 1);
}

#[test]
fn category_ties_prefer_later() {
    let mut h: CategoryHandler<()> = CategoryHandler::new(0);
    h.add(legend("first", LegendData::String(strings(&["a", "b"]))));
    h.add(legend("second", LegendData::String(strings(&["c", "d"]))));
    h.add(legend("c1", LegendData::Color(vec![[0, 0, 0]])));
    h.add(legend("c2", LegendData::Color(vec![[9, 9, 9]])));
    h.process();
    let (len, names, gradient, rest) = h.into_parts();
    assert_eq!(len, 2);
    assert_eq!(names, strings(&["c", "d"]));
    assert_eq!(gradient, Some(vec![[9, 9, 9]]));
    assert_eq!(rest.len(), 2);
}

#[test]
fn objects() {
    assert_eq!(DataLocation::Vertices.to_location(), Location::Vertices);
    assert_eq!(DataLocation::Segments.to_location(), Location::Primitives);
    assert_eq!(DataLocation::Faces.to_location(), Location::Primitives);
    assert_eq!(DataLocation::Cells.to_location(), Location::Primitives);
    assert_eq!(PointSetSubtype::default(), PointSetSubtype::Point);
    assert_eq!(PointSetSubtype::BlastHole.name(), "blasthole");
    assert_eq!(PointSetSubtype::Collar.name(), "collar");
    assert_eq!(LineSetSubtype::default().name(), "line");
    assert_eq!(LineSetSubtype::BoreHole.name(), "borehole");
}

#[test]
fn converter_settings() {
    let mut c = Converter::new();
    assert_eq!(c.limits().json_bytes, Some(1024 * 1024));
    assert_eq!(c.compression().level(), 6);
    c.set_limits(Limits::no_limits());
    c.set_compression(Compression::best());
    assert_eq!(c.limits().json_bytes, None);
    assert_eq!(c.compression().level(), 9);
    assert_eq!(Converter::default().compression().level(), 6);
}

#[test]
fn error_conversions() {
    let e: omf::error::Error = omf::omf1::Omf1Error::NonIntegerArray.into();
    assert!(matches!(e, omf::error::Error::Omf1(omf::omf1::Omf1Error::NonIntegerArray)));
    let e: omf::error::Error = omf::error::InvalidData::BoundaryDecreases.into();
    assert!(matches!(
        e,
        omf::error::Error::InvalidData(omf::error::InvalidData::BoundaryDecreases)
    ));
    let e: omf::error::Error =
        std::io::Error::new(std::io::ErrorKind::UnexpectedEof, "short").into();
    assert!(matches!(e, omf::error::Error::IoError(ref io) if io.kind() == std::io::ErrorKind::UnexpectedEof));
}

#[test]
fn category_indices_track_maximum() {
    let mut c = omf::omf1::array::CategoryIndices::new();
    assert_eq!(c.maximum(), 0);
    assert_eq!(c.visit(3).unwrap(), Some(3));
    assert_eq!(c.visit(-1).unwrap(), None);
    assert_eq!(c.visit(1).unwrap(), Some(1));
    assert!(matches!(
        c.visit(-2),
        Err(Error::Omf1(Omf1Error::IndexOutOfRange { index: -2 }))
    ));
    assert!(matches!(
        c.visit(1 << 32),
        Err(Error::Omf1(Omf1Error::IndexOutOfRange { index: 4294967296 }))
    ));
    assert_eq!(c.visit(4294967295).unwrap(), Some(4294967295));
    assert_eq!(c.maximum(), 4294967295);
}

#[test]
fn legend_values() {
    assert_eq!(opaque_colors(vec![[1, 2, 3]]), vec![[1, 2, 3, 255]]);
    assert_eq!(legend_colors(vec![[4, 5, 6], [0, 0, 0]]), vec![Some([4, 5, 6, 255]), Some([0, 0, 0, 255])]);
    assert_eq!(
        legend_strings(vec!["a".to_owned(), String::new(), "c".to_owned()]),
        vec![Some("a".to_owned()), None, Some("c".to_owned())]
    );
}
