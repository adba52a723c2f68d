use objstore::error::{Malformed, SizeFault, StoreError};
use objstore::reader::read_blob;
use objstore::writer::{write_blob, HashWriter};

fn pack(plain: &[u8]) -> Vec<u8> {
    let mut writer = HashWriter::new();
    writer.write_all(plain).unwrap();
    writer.finish().unwrap().packed
}

#[test]
fn hello_world_has_the_known_hash() {
    let object = write_blob(b"hello world\n").unwrap();
    assert_eq!(object.id, "3b18e512dba79e4c8300dd08aeb37f8e728b8dad");
    assert_eq!(read_blob(&object.packed), Ok(b"hello world\n".to_vec()));
}

#[test]
fn empty_content_has_the_known_hash() {
    let object = write_blob(b"").unwrap();
    assert_eq!(object.id, "e69de29bb2d1d6434b8b29ae775ad8c2e48c5391");
    assert_eq!(read_blob(&object.packed), Ok(Vec::new()));
}

#[test]
fn packed_bytes_are_a_zlib_stream_of_header_and_content() {
    let object = write_blob(b"hello world\n").unwrap();
    let mut plain = Vec::new();
    let mut decoder = flate2::read::ZlibDecoder::new(&object.packed[..]);
    std::io::Read::read_to_end(&mut decoder, &mut plain).unwrap();
    assert_eq!(plain, b"blob 12\0hello world\n".to_vec());
}

#[test]
fn large_content_round_trips() {
    let mut content = Vec::new();
    for i in 0..300_000u32 {
        content.push((i.wrapping_mul(2654435761) >> 13) as u8);
    }
    let object = write_blob(&content).unwrap();
    assert_eq!(object.id.len(), 40);
    assert_eq!(read_blob(&object.packed), Ok(content));
}

#[test]
fn content_with_nul_bytes_round_trips() {
    let content = b"\0\0 blob 3\0abc\0".to_vec();
    let object = write_blob(&content).unwrap();
    assert_eq!(read_blob(&object.packed), Ok(content));
}

#[test]
fn short_content_is_a_size_mismatch() {
    let packed = pack(b"blob 12\0hello world");
    assert_eq!(
        read_blob(&packed),
        Err(StoreError::SizeMismatch { expected: 12, fault: SizeFault::ShortRead { actual: 11 } })
    );
}

#[test]
fn long_content_is_a_size_mismatch() {
    let packed = pack(b"blob 12\0hello world\n!");
    let got = read_blob(&packed);
    assert!(matches!(
        got,
        Err(StoreError::SizeMismatch { expected: 12, fault: SizeFault::LimitExceeded })
            | Err(StoreError::SizeMismatch { expected: 12, fault: SizeFault::TrailingData })
    ));
}

#[test]
fn data_after_an_empty_blob_is_trailing() {
    let packed = pack(b"blob 0\0x");
    assert_eq!(
        read_blob(&packed),
        Err(StoreError::SizeMismatch { expected: 0, fault: SizeFault::TrailingData })
    );
}

#[test]
fn stream_without_nul_is_corrupt() {
    let packed = pack(b"blob 12 hello world");
    assert_eq!(read_blob(&packed), Err(StoreError::Corrupt(Malformed::TruncatedHeader)));
}

#[test]
fn empty_stream_is_corrupt() {
    let packed = pack(b"");
    assert_eq!(read_blob(&packed), Err(StoreError::Corrupt(Malformed::TruncatedHeader)));
}

#[test]
fn header_without_space_is_corrupt() {
    let packed = pack(b"blob12\0hello world\n");
    assert_eq!(read_blob(&packed), Err(StoreError::Corrupt(Malformed::MissingSeparator)));
}

#[test]
fn non_numeric_size_is_corrupt() {
    let packed = pack(b"blob 1x\0hello world\n");
    assert_eq!(read_blob(&packed), Err(StoreError::Corrupt(Malformed::BadSize)));
}

#[test]
fn tree_object_is_unsupported() {
    let packed = pack(b"tree 4\0abcd");
    assert_eq!(read_blob(&packed), Err(StoreError::UnsupportedKind));
}

#[test]
fn bytes_that_are_no_zlib_stream_are_an_io_failure() {
    assert_eq!(read_blob(b"this is not compressed"), Err(StoreError::IoFailure));
}

#[test]
fn cut_zlib_stream_is_an_io_failure() {
    let object = write_blob(b"hello world\n").unwrap();
    let cut = &object.packed[..object.packed.len() - 3];
    assert_eq!(read_blob(cut), Err(StoreError::IoFailure));
}

#[test]
fn header_alone_is_a_short_read_of_nothing() {
    let packed = pack(b"blob 5\0");
    assert_eq!(
        read_blob(&packed),
        Err(StoreError::SizeMismatch { expected: 5, fault: SizeFault::ShortRead { actual: 0 } })
    );
}

#[test]
fn long_content_beyond_one_portion_is_a_size_mismatch() {
    let mut plain = b"blob 20000\0".to_vec();
    plain.resize(plain.len() + 20001, b'a');
    let got = read_blob(&pack(&plain));
    assert!(matches!(
        got,
        Err(StoreError::SizeMismatch { expected: 20000, fault: SizeFault::LimitExceeded })
            | Err(StoreError::SizeMismatch { expected: 20000, fault: SizeFault::TrailingData })
    ));
}

#[test]
fn short_content_beyond_one_portion_is_a_short_read() {
    let mut plain = b"blob 20000\0".to_vec();
    plain.resize(plain.len() + 19999, b'a');
    assert_eq!(
        read_blob(&pack(&plain)),
        Err(StoreError::SizeMismatch { expected: 20000, fault: SizeFault::ShortRead { actual: 19999 } })
    );
}

#[test]
fn long_stream_without_nul_is_corrupt() {
    let plain = vec![b'a'; 500];
    assert_eq!(read_blob(&pack(&plain)), Err(StoreError::Corrupt(Malformed::TruncatedHeader)));
}

#[test]
fn terminator_beyond_the_window_is_not_looked_for() {
    let mut plain = b"blob ".to_vec();
    plain.resize(plain.len() + 70, b'0');
    plain.extend_from_slice(b"3\0abc");
    assert_eq!(read_blob(&pack(&plain)), Err(StoreError::Corrupt(Malformed::TruncatedHeader)));
}

#[test]
fn size_with_leading_zeros_is_read_as_a_number() {
    let packed = pack(b"blob 0003\0abc");
    assert_eq!(read_blob(&packed), Ok(b"abc".to_vec()));
}

#[test]
fn bytes_after_the_zlib_stream_are_not_content() {
    let mut packed = write_blob(b"abc").unwrap().packed;
    packed.extend_from_slice(b"junk");
    assert_eq!(read_blob(&packed), Ok(b"abc".to_vec()));
}

#[test]
fn what_was_written_is_read_back_and_never_fails() {
    for len in [0usize, 1, 2, 63, 64, 65, 8191, 8192, 8193, 40_000] {
        let mut content = Vec::new();
        for i in 0..len {
            content.push((i as u32).wrapping_mul(40503).wrapping_add(len as u32) as u8);
        }
        let object = write_blob(&content).unwrap();
        assert_eq!(read_blob(&object.packed), Ok(content));
    }
}

#[test]
fn stream_cut_after_its_content_yields_no_content() {
    let object = write_blob(b"abc").unwrap();
    for cut in 1..object.packed.len() {
        let got = read_blob(&object.packed[..cut]);
        assert!(got.is_err());
    }
}
