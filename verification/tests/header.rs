use objstore::error::{Malformed, StoreError};
use objstore::header::{read_size, write_size, Decoded, Kind, ObjectHeader, MAX_HEADER_LEN};

#[test]
fn encode_writes_kind_space_size_nul() {
    let header = ObjectHeader { kind: Kind::Blob, size: 12 };
    assert_eq!(header.encode(), b"blob 12\0".to_vec());
}

#[test]
fn encode_of_size_zero() {
    let header = ObjectHeader { kind: Kind::Blob, size: 0 };
    assert_eq!(header.encode(), b"blob 0\0".to_vec());
}

#[test]
fn encode_of_the_largest_size() {
    let header = ObjectHeader { kind: Kind::Blob, size: u64::MAX };
    assert_eq!(header.encode(), b"blob 18446744073709551615\0".to_vec());
}

#[test]
fn decode_gives_fields_and_offset() {
    let got = ObjectHeader::decode(b"blob 12\0hello world\n");
    let want = Decoded { header: ObjectHeader { kind: Kind::Blob, size: 12 }, offset: 8 };
    assert_eq!(got, Ok(want));
}

#[test]
fn decode_stops_at_the_first_nul() {
    let got = ObjectHeader::decode(b"blob 3\0a\0b");
    let want = Decoded { header: ObjectHeader { kind: Kind::Blob, size: 3 }, offset: 7 };
    assert_eq!(got, Ok(want));
}

#[test]
fn decode_inverts_encode() {
    for size in [0u64, 1, 9, 10, 99, 100, 4096, 1 << 32, u64::MAX] {
        let header = ObjectHeader { kind: Kind::Blob, size };
        let mut bytes = header.encode();
        let offset = bytes.len();
        bytes.extend_from_slice(b"rest");
        assert_eq!(ObjectHeader::decode(&bytes), Ok(Decoded { header, offset }));
    }
}

#[test]
fn decode_without_nul_is_truncated() {
    assert_eq!(
        ObjectHeader::decode(b"blob 12"),
        Err(StoreError::Corrupt(Malformed::TruncatedHeader))
    );
    assert_eq!(ObjectHeader::decode(b""), Err(StoreError::Corrupt(Malformed::TruncatedHeader)));
}

#[test]
fn decode_looks_for_the_nul_within_the_window_only() {
    let mut bytes = b"blob ".to_vec();
    while bytes.len() < MAX_HEADER_LEN - 1 {
        bytes.push(b'0');
    }
    let mut inside = bytes.clone();
    inside.push(0);
    let want = Decoded { header: ObjectHeader { kind: Kind::Blob, size: 0 }, offset: MAX_HEADER_LEN };
    assert_eq!(ObjectHeader::decode(&inside), Ok(want));
    let mut outside = bytes.clone();
    outside.push(b'0');
    outside.push(0);
    assert_eq!(
        ObjectHeader::decode(&outside),
        Err(StoreError::Corrupt(Malformed::TruncatedHeader))
    );
}

#[test]
fn decode_without_space_is_missing_separator() {
    assert_eq!(
        ObjectHeader::decode(b"blob12\0"),
        Err(StoreError::Corrupt(Malformed::MissingSeparator))
    );
    assert_eq!(ObjectHeader::decode(b"\0"), Err(StoreError::Corrupt(Malformed::MissingSeparator)));
    assert_eq!(
        ObjectHeader::decode(b"blob\0 12"),
        Err(StoreError::Corrupt(Malformed::MissingSeparator))
    );
}

#[test]
fn decode_of_another_kind_is_unsupported() {
    assert_eq!(ObjectHeader::decode(b"tree 4\0abcd"), Err(StoreError::UnsupportedKind));
    assert_eq!(ObjectHeader::decode(b"commit 4\0abcd"), Err(StoreError::UnsupportedKind));
    assert_eq!(ObjectHeader::decode(b"Blob 4\0abcd"), Err(StoreError::UnsupportedKind));
    assert_eq!(ObjectHeader::decode(b" 4\0abcd"), Err(StoreError::UnsupportedKind));
}

#[test]
fn kind_is_judged_before_size() {
    assert_eq!(ObjectHeader::decode(b"tree x\0"), Err(StoreError::UnsupportedKind));
}

#[test]
fn decode_of_a_bad_size_is_corrupt() {
    let bad = Err(StoreError::Corrupt(Malformed::BadSize));
    assert_eq!(ObjectHeader::decode(b"blob \0"), bad);
    assert_eq!(ObjectHeader::decode(b"blob 1x\0"), bad);
    assert_eq!(ObjectHeader::decode(b"blob -1\0"), bad);
    assert_eq!(ObjectHeader::decode(b"blob +1\0"), bad);
    assert_eq!(ObjectHeader::decode(b"blob 1 2\0"), bad);
    assert_eq!(ObjectHeader::decode(b"blob 18446744073709551616\0"), bad);
}

#[test]
fn kind_parse_knows_blob_only() {
    assert_eq!(Kind::parse(b"blob"), Some(Kind::Blob));
    assert_eq!(Kind::parse(b"tree"), None);
    assert_eq!(Kind::parse(b"blo"), None);
    assert_eq!(Kind::parse(b"blobs"), None);
    assert_eq!(Kind::parse(b""), None);
}

#[test]
fn write_size_gives_decimal_digits() {
    assert_eq!(write_size(0), b"0".to_vec());
    assert_eq!(write_size(7), b"7".to_vec());
    assert_eq!(write_size(1200), b"1200".to_vec());
    assert_eq!(write_size(u64::MAX), b"18446744073709551615".to_vec());
}

#[test]
fn read_size_reads_digits_and_nothing_else() {
    assert_eq!(read_size(b"0"), Some(0));
    assert_eq!(read_size(b"12"), Some(12));
    assert_eq!(read_size(b"0012"), Some(12));
    assert_eq!(read_size(b"18446744073709551615"), Some(u64::MAX));
    assert_eq!(read_size(b"18446744073709551616"), None);
    assert_eq!(read_size(b"99999999999999999999"), None);
    assert_eq!(read_size(b"000000000000000000000000000001"), Some(1));
    assert_eq!(read_size(b""), None);
    assert_eq!(read_size(b"12a"), None);
    assert_eq!(read_size(b" 12"), None);
}
