use omf::array_schemas::{Boundary, Color, Number, Scalar, Vector, Vertex};
use omf::error::Error;
use omf::pq_schema::{
    check_column, column_of, group_of, message_of, schema_eq, Column, ColumnDetails, ConvertedType,
    LogicalCheck, LogicalType, PhysicalType, PqArrayMatcher, Repetition, SchemaType, TimeUnit,
};

fn required(name: &str, physical: PhysicalType) -> SchemaType {
    column_of(name, Repetition::Required, physical, None)
}

fn optional_date(name: &str) -> SchemaType {
    column_of(name, Repetition::Optional, PhysicalType::Int32, Some(LogicalType::Date))
}

#[test]
fn parquet_schema_match() {
    let matcher = PqArrayMatcher::new(vec![
        (0, message_of(vec![required("x", PhysicalType::Float), optional_date("y")])),
        (1, message_of(vec![required("x", PhysicalType::Double), optional_date("y")])),
    ]);
    let schema = message_of(vec![required("x", PhysicalType::Double), optional_date("y")]);
    let index = matcher.check(&schema).unwrap();
    assert_eq!(index, 1);
}

#[test]
fn parquet_schema_no_match() {
    let matcher = PqArrayMatcher::new(vec![
        (0, message_of(vec![required("x", PhysicalType::Float)])),
        (1, message_of(vec![required("x", PhysicalType::Double)])),
    ]);
    let schema = message_of(vec![required("x", PhysicalType::Int32)]);
    let err = matcher.check(&schema).unwrap_err();
    match err {
        Error::ParquetSchemaMismatch(found, expected) => {
            assert!(schema_eq(&found, &schema));
            assert_eq!(expected.len(), 2);
            assert!(schema_eq(&expected[0], &message_of(vec![required("x", PhysicalType::Float)])));
            assert!(schema_eq(&expected[1], &message_of(vec![required("x", PhysicalType::Double)])));
        }
        other => panic!("unexpected error {other:?}"),
    }
}

#[test]
fn schema_first_match_wins() {
    let matcher = PqArrayMatcher::new(vec![
        ('a', message_of(vec![required("x", PhysicalType::Float)])),
        ('b', message_of(vec![required("x", PhysicalType::Float)])),
    ]);
    let schema = message_of(vec![required("x", PhysicalType::Float)]);
    assert_eq!(matcher.check(&schema).unwrap(), 'a');
}

#[test]
fn schema_equality_details() {
    let a = message_of(vec![required("x", PhysicalType::Float)]);
    assert!(schema_eq(&a, &a.copy()));
    assert!(!schema_eq(&a, &message_of(vec![required("y", PhysicalType::Float)])));
    assert!(!schema_eq(
        &a,
        &message_of(vec![column_of("x", Repetition::Optional, PhysicalType::Float, None)])
    ));
    assert!(!schema_eq(
        &a,
        &message_of(vec![required("x", PhysicalType::Float), required("y", PhysicalType::Float)])
    ));
    assert!(!schema_eq(&a, &required("x", PhysicalType::Float)));
}

#[test]
fn scalar_schemas() {
    let f32 = message_of(vec![required("scalar", PhysicalType::Float)]);
    let f64 = message_of(vec![required("scalar", PhysicalType::Double)]);
    assert_eq!(Scalar::check(&f32).unwrap(), Scalar::F32);
    assert_eq!(Scalar::check(&f64).unwrap(), Scalar::F64);
    let optional = message_of(vec![column_of(
        "scalar",
        Repetition::Optional,
        PhysicalType::Double,
        None,
    )]);
    assert!(matches!(
        Scalar::check(&optional),
        Err(Error::ParquetSchemaMismatch(_, expected)) if expected.len() == 2
    ));
}

#[test]
fn vertex_schemas() {
    let f64 = message_of(vec![
        required("x", PhysicalType::Double),
        required("y", PhysicalType::Double),
        required("z", PhysicalType::Double),
    ]);
    assert_eq!(Vertex::check(&f64).unwrap(), Vertex::F64);
    let reordered = message_of(vec![
        required("y", PhysicalType::Double),
        required("x", PhysicalType::Double),
        required("z", PhysicalType::Double),
    ]);
    assert!(Vertex::check(&reordered).is_err());
}

#[test]
fn boundary_and_number_schemas() {
    let micros = Some(LogicalType::Timestamp { adjusted_to_utc: true, unit: TimeUnit::Micros });
    let boundary = message_of(vec![
        column_of("value", Repetition::Required, PhysicalType::Int64, micros),
        required("inclusive", PhysicalType::Boolean),
    ]);
    assert_eq!(Boundary::check(&boundary).unwrap(), Boundary::DateTime);
    let millis = Some(LogicalType::Timestamp { adjusted_to_utc: true, unit: TimeUnit::Millis });
    let number = message_of(vec![column_of(
        "number",
        Repetition::Optional,
        PhysicalType::Int64,
        millis,
    )]);
    assert!(Number::check(&number).is_err());
    let number = message_of(vec![optional_date("number")]);
    assert_eq!(Number::check(&number).unwrap(), Number::Date);
}

#[test]
fn group_schemas() {
    let vector = message_of(vec![group_of(
        "vector",
        Repetition::Optional,
        vec![required("x", PhysicalType::Float), required("y", PhysicalType::Float)],
    )]);
    assert_eq!(Vector::check(&vector).unwrap(), Vector::F32x2);
    let u8 = Some(LogicalType::Integer { bit_width: 8, is_signed: false });
    let color = message_of(vec![group_of(
        "color",
        Repetition::Optional,
        ["r", "g", "b", "a"]
            .iter()
            .map(|n| column_of(n, Repetition::Required, PhysicalType::Int32, u8))
            .collect(),
    )]);
    assert_eq!(Color::check(&color).unwrap(), Color::Rgba8);
    assert!(Vector::check(&color).is_err());
}

fn columns() -> Vec<Column> {
    vec![
        Column {
            path: vec!["index".to_owned()],
            repetition: Repetition::Optional,
            physical: PhysicalType::Int32,
            logical: Some(LogicalType::Integer { bit_width: 32, is_signed: false }),
        },
        Column {
            path: vec!["vector".to_owned(), "x".to_owned()],
            repetition: Repetition::Required,
            physical: PhysicalType::Double,
            logical: None,
        },
        Column {
            path: vec!["time".to_owned()],
            repetition: Repetition::Required,
            physical: PhysicalType::Int64,
            logical: Some(LogicalType::Timestamp { adjusted_to_utc: true, unit: TimeUnit::Millis }),
        },
    ]
}

fn path(parts: &[&str]) -> Vec<String> {
    parts.iter().map(|s| s.to_string()).collect()
}

fn message(r: Result<usize, Error>) -> String {
    match r {
        Err(Error::ParquetError(m)) => m,
        other => panic!("unexpected result {other:?}"),
    }
}

#[test]
fn column_found() {
    let cs = columns();
    let u32 = LogicalCheck::Exactly(Some(LogicalType::Integer { bit_width: 32, is_signed: false }));
    assert_eq!(check_column(&cs, &path(&["index"]), PhysicalType::Int32, u32, true).unwrap(), 0);
    let none = LogicalCheck::Exactly(None);
    assert_eq!(
        check_column(&cs, &path(&["vector", "x"]), PhysicalType::Double, none, true).unwrap(),
        1
    );
    assert_eq!(
        check_column(&cs, &path(&["vector", "x"]), PhysicalType::Double, none, false).unwrap(),
        1
    );
    assert_eq!(
        check_column(&cs, &path(&["time"]), PhysicalType::Int64, LogicalCheck::AnyTimestamp, false)
            .unwrap(),
        2
    );
}

#[test]
fn column_errors() {
    let cs = columns();
    let none = LogicalCheck::Exactly(None);
    assert_eq!(
        message(check_column(&cs, &path(&["vector", "y"]), PhysicalType::Double, none, true)),
        "Parquet column not found: \"vector.y\""
    );
    assert_eq!(
        message(check_column(&cs, &path(&["vector", "x"]), PhysicalType::Float, none, true)),
        "column type mismatch"
    );
    assert_eq!(
        message(check_column(&cs, &path(&["time"]), PhysicalType::Int64, none, true)),
        "column type mismatch"
    );
    let u32 = LogicalCheck::Exactly(Some(LogicalType::Integer { bit_width: 32, is_signed: false }));
    assert_eq!(
        message(check_column(&cs, &path(&["index"]), PhysicalType::Int32, u32, false)),
        "column repetition mismatch"
    );
}

#[test]
fn number_casts() {
    for n in [Number::F32, Number::F64, Number::Date, Number::DateTime] {
        assert!(n.check_cast_f64().is_ok());
    }
    assert!(matches!(
        Number::I64.check_cast_f64(),
        Err(Error::UnsafeCast("64-bit integer", "64-bit float"))
    ));
    for n in [Number::I64, Number::Date, Number::DateTime] {
        assert!(n.check_cast_i64().is_ok());
    }
    assert!(matches!(
        Number::F32.check_cast_i64(),
        Err(Error::UnsafeCast("32-bit float", "64-bit integer"))
    ));
    assert!(matches!(
        Number::F64.check_cast_i64(),
        Err(Error::UnsafeCast("64-bit float", "64-bit integer"))
    ));
}

#[test]
fn schema_details_must_match() {
    let built = column_of("x", Repetition::Required, PhysicalType::Int32, Some(LogicalType::Date));
    let expected_details = ColumnDetails {
        converted: ConvertedType::Date,
        id: None,
        type_length: -1,
        scale: -1,
        precision: -1,
    };
    let same = SchemaType::Primitive {
        name: "x".to_owned(),
        repetition: Repetition::Required,
        physical: PhysicalType::Int32,
        logical: Some(LogicalType::Date),
        details: expected_details,
    };
    assert!(schema_eq(&built, &same));
    let with_id = SchemaType::Primitive {
        name: "x".to_owned(),
        repetition: Repetition::Required,
        physical: PhysicalType::Int32,
        logical: Some(LogicalType::Date),
        details: ColumnDetails { id: Some(7), ..expected_details },
    };
    assert!(!schema_eq(&built, &with_id));
    let matcher = PqArrayMatcher::new(vec![(0, message_of(vec![built]))]);
    assert!(matcher.check(&message_of(vec![same])).is_ok());
    assert!(matcher.check(&message_of(vec![with_id])).is_err());
}
