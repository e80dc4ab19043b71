use omf::error::Error;
use omf::pqarray::{
    check_counts, zip_nullable_row, zip_row, ChunkStep, Counter, NullableChunk, PqWriteOptions,
    RequiredChunk,
};

#[test]
fn write_options() {
    let o = PqWriteOptions::default();
    assert_eq!(o.row_group_size, 1024 * 1024);
    assert_eq!(o.compression_level, 6);
    assert!(!o.statistics);
    assert_eq!(o.gzip_level(), 6);
    let o = PqWriteOptions { compression_level: 12, ..PqWriteOptions::default() };
    assert_eq!(o.gzip_level(), 10);
}

#[test]
fn parquet_array_separate_columns_uneven() {
    let mut total = 0;
    assert_eq!(check_counts(&mut total, &[4, 4]).unwrap(), false);
    assert_eq!(total, 4);
    match check_counts(&mut total, &[0, 3]) {
        Err(Error::ParquetError(m)) => {
            assert_eq!(format!("Parquet error: {m}"), "Parquet error: uneven iterator lengths after 4 items")
        }
        other => panic!("unexpected {other:?}"),
    }
    let mut total = 10;
    assert_eq!(check_counts(&mut total, &[0, 0, 0]).unwrap(), true);
    assert_eq!(total, 10);
}

#[test]
fn counters() {
    let mut c = Counter::new();
    assert_eq!(c.incr(), 0);
    assert_eq!(c.incr(), 1);
    assert!(c.reached(2));
    assert!(!c.reached(3));
    c.reset();
    assert!(c.reached(0));
    assert!(!c.reached(1));
}

#[test]
fn required_chunks() {
    let mut c = RequiredChunk::new();
    assert_eq!(c.next(), ChunkStep::NeedChunk);
    c.load(2);
    assert_eq!(c.next(), ChunkStep::Value(0));
    assert_eq!(c.next(), ChunkStep::Value(1));
    assert_eq!(c.next(), ChunkStep::NeedChunk);
}

#[test]
fn nullable_chunks() {
    let mut c = NullableChunk::new();
    assert_eq!(c.next(), ChunkStep::NeedChunk);
    c.load(vec![1, 0, 1, 1, 0, 9], 5);
    assert_eq!(c.next(), ChunkStep::Value(0));
    assert_eq!(c.next(), ChunkStep::Null);
    assert_eq!(c.next(), ChunkStep::Value(1));
    assert_eq!(c.next(), ChunkStep::Value(2));
    assert_eq!(c.next(), ChunkStep::Null);
    assert_eq!(c.next(), ChunkStep::NeedChunk);
}

#[test]
fn zip_rows() {
    let row: Option<Result<Vec<u32>, &str>> = zip_row(vec![Some(Ok(1)), Some(Ok(2)), Some(Ok(3))]);
    assert_eq!(row, Some(Ok(vec![1, 2, 3])));
    assert_eq!(zip_row::<u32, &str>(vec![Some(Ok(1)), None, Some(Err("late"))]), None);
    assert_eq!(
        zip_row::<u32, &str>(vec![Some(Ok(1)), Some(Err("first")), None]),
        Some(Err("first"))
    );
    assert_eq!(zip_row::<u32, &str>(vec![]), Some(Ok(vec![])));
    assert_eq!(
        zip_nullable_row::<u32, &str>(vec![Some(Ok(Some(1))), Some(Ok(Some(2)))]),
        Some(Ok(Some(vec![1, 2])))
    );
    assert_eq!(
        zip_nullable_row::<u32, &str>(vec![Some(Ok(Some(1))), Some(Ok(None)), Some(Err("e"))]),
        Some(Ok(None))
    );
    assert_eq!(
        zip_nullable_row::<u32, &str>(vec![Some(Err("e")), Some(Ok(None))]),
        Some(Err("e"))
    );
    assert_eq!(zip_nullable_row::<u32, &str>(vec![Some(Ok(None)), None]), Some(Ok(None)));
    assert_eq!(zip_nullable_row::<u32, &str>(vec![None, Some(Ok(None))]), None);
}
