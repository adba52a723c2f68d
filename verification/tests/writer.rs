use objstore::error::{SizeFault, StoreError};
use objstore::writer::{write_blob, BlobWriter, HashWriter};

fn inflate(packed: &[u8]) -> Vec<u8> {
    let mut plain = Vec::new();
    let mut decoder = flate2::read::ZlibDecoder::new(packed);
    std::io::Read::read_to_end(&mut decoder, &mut plain).unwrap();
    plain
}

#[test]
fn write_reports_how_much_it_took() {
    let mut writer = HashWriter::new();
    let n = writer.write(b"hello").unwrap();
    assert!(n >= 1 && n <= 5);
}

#[test]
fn digest_is_of_the_plain_bytes() {
    let mut writer = HashWriter::new();
    writer.write_all(b"abc").unwrap();
    let sealed = writer.finish().unwrap();
    assert_eq!(hex::encode(&sealed.digest), "a9993e364706816aba3e25717850c26c9cd0d89d");
    assert_eq!(inflate(&sealed.packed), b"abc".to_vec());
}

#[test]
fn digest_of_nothing() {
    let sealed = HashWriter::new().finish().unwrap();
    assert_eq!(sealed.digest.len(), 20);
    assert_eq!(hex::encode(&sealed.digest), "da39a3ee5e6b4b0d3255bfef95601890afd80709");
    assert_eq!(inflate(&sealed.packed), Vec::<u8>::new());
}

#[test]
fn pieces_hash_as_the_whole() {
    let mut pieces = HashWriter::new();
    pieces.write_all(b"blob 12\0").unwrap();
    pieces.write_all(b"hello ").unwrap();
    pieces.write_all(b"").unwrap();
    pieces.write_all(b"world\n").unwrap();
    let mut whole = HashWriter::new();
    whole.write_all(b"blob 12\0hello world\n").unwrap();
    let a = pieces.finish().unwrap();
    let b = whole.finish().unwrap();
    assert_eq!(a.digest, b.digest);
    assert_eq!(inflate(&a.packed), inflate(&b.packed));
}

#[test]
fn flush_leaves_the_digest_alone() {
    let mut flushed = HashWriter::new();
    flushed.write_all(b"hello ").unwrap();
    flushed.flush().unwrap();
    flushed.write_all(b"world\n").unwrap();
    let mut plain = HashWriter::new();
    plain.write_all(b"hello world\n").unwrap();
    let a = flushed.finish().unwrap();
    let b = plain.finish().unwrap();
    assert_eq!(a.digest, b.digest);
    assert_eq!(inflate(&a.packed), b"hello world\n".to_vec());
}

#[test]
fn same_content_same_hash() {
    let a = write_blob(b"some content").unwrap();
    let b = write_blob(b"some content").unwrap();
    assert_eq!(a.id, b.id);
}

#[test]
fn different_content_different_hash() {
    let a = write_blob(b"some content").unwrap();
    let b = write_blob(b"some content ").unwrap();
    let c = write_blob(b"").unwrap();
    assert_ne!(a.id, b.id);
    assert_ne!(a.id, c.id);
    assert_ne!(b.id, c.id);
}

#[test]
fn hash_is_forty_lowercase_hex_characters() {
    let object = write_blob(b"\xff\xfe\x00\x01").unwrap();
    assert_eq!(object.id.len(), 40);
    assert!(object.id.chars().all(|c| matches!(c, '0'..='9' | 'a'..='f')));
}

#[test]
fn blob_in_parts_is_the_blob_in_one() {
    let writer = BlobWriter::begin(12).unwrap();
    let writer = writer.feed(b"hello").unwrap();
    let writer = writer.feed(b"").unwrap();
    let writer = writer.feed(b" world\n").unwrap();
    let object = writer.finish().unwrap();
    assert_eq!(object.id, "3b18e512dba79e4c8300dd08aeb37f8e728b8dad");
    assert_eq!(inflate(&object.packed), b"blob 12\0hello world\n".to_vec());
}

#[test]
fn blob_of_nothing() {
    let object = BlobWriter::begin(0).unwrap().finish().unwrap();
    assert_eq!(object.id, "e69de29bb2d1d6434b8b29ae775ad8c2e48c5391");
    assert_eq!(inflate(&object.packed), b"blob 0\0".to_vec());
}

#[test]
fn blob_fed_past_its_size_is_refused() {
    let writer = BlobWriter::begin(4).unwrap().feed(b"abc").unwrap();
    let got = writer.feed(b"de");
    assert_eq!(
        got.err(),
        Some(StoreError::SizeMismatch { expected: 4, fault: SizeFault::LimitExceeded })
    );
}

#[test]
fn blob_fed_short_of_its_size_is_refused() {
    let writer = BlobWriter::begin(4).unwrap().feed(b"abc").unwrap();
    let got = writer.finish();
    assert_eq!(
        got.err(),
        Some(StoreError::SizeMismatch { expected: 4, fault: SizeFault::ShortRead { actual: 3 } })
    );
}

#[test]
fn write_of_nothing_takes_nothing() {
    let mut writer = HashWriter::new();
    assert_eq!(writer.write(b""), Ok(0));
    let sealed = writer.finish().unwrap();
    assert_eq!(hex::encode(&sealed.digest), "da39a3ee5e6b4b0d3255bfef95601890afd80709");
}

#[test]
fn write_takes_at_least_one_byte_until_all_is_taken() {
    let mut data = Vec::new();
    for i in 0..200_000u32 {
        data.push((i.wrapping_mul(2654435761) >> 11) as u8);
    }
    let mut by_hand = HashWriter::new();
    let mut done = 0;
    while done < data.len() {
        let n = by_hand.write(&data[done..]).unwrap();
        assert!(n >= 1);
        assert!(n <= data.len() - done);
        done += n;
    }
    let mut at_once = HashWriter::new();
    at_once.write_all(&data).unwrap();
    let a = by_hand.finish().unwrap();
    let b = at_once.finish().unwrap();
    assert_eq!(a.digest, b.digest);
    assert_eq!(inflate(&a.packed), data);
    assert_eq!(inflate(&b.packed), data);
}
