use objstore::error::{SizeFault, StoreError};
use objstore::reader::{charge, request, LimitReader};
use objstore::writer::HashWriter;

fn pack(plain: &[u8]) -> Vec<u8> {
    let mut writer = HashWriter::new();
    writer.write_all(plain).unwrap();
    writer.finish().unwrap().packed
}

#[test]
fn request_asks_one_past_the_limit_at_most() {
    assert_eq!(request(5, 100), 6);
    assert_eq!(request(5, 6), 6);
    assert_eq!(request(5, 5), 5);
    assert_eq!(request(5, 3), 3);
    assert_eq!(request(0, 100), 1);
    assert_eq!(request(0, 0), 0);
    assert_eq!(request(u64::MAX, 100), 100);
}

#[test]
fn charge_takes_a_count_off_the_limit() {
    assert_eq!(charge(5, 0), Ok(5));
    assert_eq!(charge(5, 3), Ok(2));
    assert_eq!(charge(5, 5), Ok(0));
    assert_eq!(charge(0, 0), Ok(0));
}

#[test]
fn charge_refuses_a_count_above_the_limit() {
    assert_eq!(charge(5, 6), Err(SizeFault::LimitExceeded));
    assert_eq!(charge(1, 100), Err(SizeFault::LimitExceeded));
    assert_eq!(charge(0, 1), Err(SizeFault::TrailingData));
}

#[test]
fn reader_yields_the_stream_within_its_limit() {
    let mut reader = LimitReader::open(pack(b"abcdef"), 6);
    assert_eq!(reader.limit(), 6);
    assert_eq!(reader.read(4), Ok(b"abcd".to_vec()));
    assert_eq!(reader.limit(), 2);
    assert_eq!(reader.read(4), Ok(b"ef".to_vec()));
    assert_eq!(reader.limit(), 0);
    assert_eq!(reader.read(4), Ok(Vec::new()));
    assert_eq!(reader.limit(), 0);
}

#[test]
fn reader_reports_the_end_of_a_short_stream() {
    let mut reader = LimitReader::open(pack(b"abc"), 6);
    assert_eq!(reader.read(16), Ok(b"abc".to_vec()));
    assert_eq!(reader.read(16), Ok(Vec::new()));
    assert_eq!(reader.limit(), 3);
}

#[test]
fn reader_fails_when_a_read_exceeds_the_limit() {
    let mut reader = LimitReader::open(pack(b"abcdef"), 4);
    assert_eq!(
        reader.read(16),
        Err(StoreError::SizeMismatch { expected: 4, fault: SizeFault::LimitExceeded })
    );
}

#[test]
fn reader_fails_on_data_after_the_limit_is_used_up() {
    let mut reader = LimitReader::open(pack(b"abcdef"), 4);
    assert_eq!(reader.read(4), Ok(b"abcd".to_vec()));
    assert_eq!(
        reader.read(4),
        Err(StoreError::SizeMismatch { expected: 4, fault: SizeFault::TrailingData })
    );
}

#[test]
fn reader_with_no_room_reads_nothing() {
    let mut reader = LimitReader::open(pack(b"abc"), 3);
    assert_eq!(reader.read(0), Ok(Vec::new()));
    assert_eq!(reader.limit(), 3);
}

#[test]
fn reader_on_garbage_is_an_io_failure() {
    let mut reader = LimitReader::open(b"garbage".to_vec(), 3);
    assert_eq!(reader.read(3), Err(StoreError::IoFailure));
}

#[test]
fn failed_read_leaves_the_limit_as_it_was() {
    let mut reader = LimitReader::open(pack(b"abcd"), 3);
    assert_eq!(
        reader.read(8),
        Err(StoreError::SizeMismatch { expected: 3, fault: SizeFault::LimitExceeded })
    );
    assert_eq!(reader.limit(), 3);
    let mut spent = LimitReader::open(pack(b"abcd"), 2);
    assert_eq!(spent.read(2), Ok(b"ab".to_vec()));
    assert_eq!(
        spent.read(8),
        Err(StoreError::SizeMismatch { expected: 2, fault: SizeFault::TrailingData })
    );
    assert_eq!(spent.limit(), 0);
    let mut broken = LimitReader::open(b"garbage".to_vec(), 5);
    assert_eq!(broken.read(8), Err(StoreError::IoFailure));
    assert_eq!(broken.limit(), 5);
}

#[test]
fn intact_stream_reads_to_its_end_without_failure() {
    let mut plain = Vec::new();
    for i in 0..100_000u32 {
        plain.push((i.wrapping_mul(2246822519) >> 9) as u8);
    }
    let mut reader = LimitReader::open(pack(&plain), plain.len() as u64);
    let mut out = Vec::new();
    loop {
        let chunk = reader.read(777).unwrap();
        if chunk.is_empty() {
            break;
        }
        out.extend_from_slice(&chunk);
    }
    assert_eq!(out, plain);
    assert_eq!(reader.limit(), 0);
    assert_eq!(reader.read(777), Ok(Vec::new()));
}
