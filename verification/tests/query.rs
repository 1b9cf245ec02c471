use noodles_codecs::error::DecodeError;
use noodles_codecs::query::{intersects, query, Chunk, Interval, LazyRecord};

fn record(chromosome_id: u32, start: u64, end: u64) -> LazyRecord {
    LazyRecord { chromosome_id, position: start, end }
}

#[test]
fn test_query_filter() {
    // two chunks; the first covers two records, the second one more
    let c1 = Chunk { start: 0, end: 100 };
    let c2 = Chunk { start: 200, end: 300 };

    let r1 = record(0, 10, 20);
    let r2 = record(1, 30, 40);
    let r3 = record(0, 35, 45);

    let mut q = query(vec![c1, c2], 0, Interval { start: 25, end: 50 });
    let mut yielded = Vec::new();

    // first chunk: the driver seeks to its start and reads records
    assert_eq!(q.begin_chunk(), Some(c1));

    if q.on_record(&r1, 50).unwrap() {
        yielded.push(r1);
    }

    // the reader reaches the chunk's upper bound with this record
    if q.on_record(&r2, 100).unwrap() {
        yielded.push(r2);
    }

    // second chunk
    assert_eq!(q.begin_chunk(), Some(c2));

    if q.on_record(&r3, 250).unwrap() {
        yielded.push(r3);
    }

    q.on_end_of_stream();

    assert_eq!(q.begin_chunk(), None);
    assert!(q.is_done());

    assert_eq!(yielded, vec![r3]);
}

#[test]
fn test_query_does_not_yield_empty_record_interval() {
    let c1 = Chunk { start: 0, end: 100 };
    let empty = record(0, 10, 9);

    let mut q = query(vec![c1], 0, Interval { start: 5, end: 20 });

    assert_eq!(q.begin_chunk(), Some(c1));
    assert_eq!(q.on_record(&empty, 50), Ok(false));
}

#[test]
fn test_intersects() {
    let interval = Interval { start: 25, end: 50 };

    assert_eq!(intersects(&record(0, 35, 45), 0, interval), Ok(true));
    assert_eq!(intersects(&record(0, 10, 20), 0, interval), Ok(false));
    assert_eq!(intersects(&record(1, 35, 45), 0, interval), Ok(false));
    assert_eq!(intersects(&record(0, 10, 25), 0, interval), Ok(true));
    assert_eq!(intersects(&record(0, 50, 60), 0, interval), Ok(true));

    // a record whose end lies before its start covers no position, so it
    // intersects nothing
    assert_eq!(intersects(&record(0, 10, 9), 0, Interval { start: 5, end: 20 }), Ok(false));
    assert_eq!(intersects(&record(0, 30, 29), 0, interval), Ok(false));

    // a zero 1-based position is invalid data
    assert_eq!(
        intersects(&record(0, 0, 45), 0, interval),
        Err(DecodeError::InvalidData)
    );
    assert_eq!(
        intersects(&record(0, 35, 0), 0, interval),
        Err(DecodeError::InvalidData)
    );
}
