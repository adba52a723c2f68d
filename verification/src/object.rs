//! The plain form of an object, `header || content`, and what holds of it.

use vstd::prelude::*;
use crate::error::{Malformed, SizeFault, StoreError};
use crate::hash::{hex_lower, lemma_hex_lower_injective, sha1_collision, sha1_digest};
use crate::header::{decode_header, header_bytes, header_window, is_first};
use crate::header::{lemma_first_index_absent, lemma_first_index_found};
use crate::header::{lemma_header_len, lemma_header_round_trip, parse_size};
use crate::header::{Kind, MAX_HEADER_LEN, NUL, SPACE};

verus! {

/// The plain encoding of a blob: its header, then its content.
pub open spec fn object_bytes(content: Seq<u8>) -> Seq<u8> {
    header_bytes(Kind::Blob, content.len() as u64) + content
}

/// The hash of a blob: the lowercase hexadecimal SHA-1 of its plain encoding.
pub open spec fn object_id(content: Seq<u8>) -> Seq<char> {
    hex_lower(sha1_digest(object_bytes(content)))
}

/// What a plain object stream holds: the content, if the header parses and
/// exactly as many bytes follow it as it declares.
///
/// A stream with more bytes than declared is reported here as `TrailingData`;
/// a streaming reader may meet the surplus as `LimitExceeded` instead (see
/// `reading_agrees`).
pub open spec fn parse_object(s: Seq<u8>) -> Result<Seq<u8>, StoreError> {
    match decode_header(s) {
        Err(e) => Err(e),
        Ok(d) => {
            let body = s.skip(d.offset as int);
            if body.len() < d.header.size {
                Err(
                    StoreError::SizeMismatch {
                        expected: d.header.size,
                        fault: SizeFault::ShortRead { actual: body.len() as u64 },
                    },
                )
            } else if body.len() > d.header.size {
                Err(
                    StoreError::SizeMismatch {
                        expected: d.header.size,
                        fault: SizeFault::TrailingData,
                    },
                )
            } else {
                Ok(body)
            }
        },
    }
}

/// The plain encoding of any content holds exactly that content: decoding
/// inverts encoding.
pub proof fn lemma_round_trip(content: Seq<u8>)
    requires
        content.len() <= u64::MAX,
    ensures
        parse_object(object_bytes(content)) == Ok::<Seq<u8>, StoreError>(content),
{
    let size = content.len() as u64;
    let head = header_bytes(Kind::Blob, size);
    lemma_header_round_trip(Kind::Blob, size, content);
    lemma_header_len(Kind::Blob, size);
    assert((head + content).skip(head.len() as int) =~= content);
}

/// Different contents have different plain encodings: the header tells where
/// the content starts, and the rest is the content.
pub proof fn lemma_object_bytes_injective(a: Seq<u8>, b: Seq<u8>)
    requires
        a.len() <= u64::MAX,
        b.len() <= u64::MAX,
        object_bytes(a) == object_bytes(b),
    ensures
        a == b,
{
    let ha = header_bytes(Kind::Blob, a.len() as u64);
    let hb = header_bytes(Kind::Blob, b.len() as u64);
    lemma_header_round_trip(Kind::Blob, a.len() as u64, a);
    lemma_header_round_trip(Kind::Blob, b.len() as u64, b);
    lemma_header_len(Kind::Blob, a.len() as u64);
    lemma_header_len(Kind::Blob, b.len() as u64);
    assert(ha.len() == hb.len());
    assert((ha + a).skip(ha.len() as int) =~= a);
    assert((hb + b).skip(hb.len() as int) =~= b);
}

/// Two contents get the same hash only if they are the same content, or if
/// their plain encodings are a SHA-1 collision. Short of a collision, distinct
/// contents have distinct hashes.
pub proof fn lemma_same_id_same_content(a: Seq<u8>, b: Seq<u8>)
    requires
        a.len() <= u64::MAX,
        b.len() <= u64::MAX,
        object_id(a) == object_id(b),
    ensures
        a == b || sha1_collision(object_bytes(a), object_bytes(b)),
{
    lemma_hex_lower_injective(sha1_digest(object_bytes(a)), sha1_digest(object_bytes(b)));
    if object_bytes(a) == object_bytes(b) {
        lemma_object_bytes_injective(a, b);
    }
}

/// A stream without a NUL has no header terminator and is corrupt.
pub proof fn lemma_no_terminator(s: Seq<u8>)
    requires
        forall|i: int| 0 <= i < s.len() ==> s[i] != NUL,
    ensures
        parse_object(s) == Err::<Seq<u8>, StoreError>(
            StoreError::Corrupt(Malformed::TruncatedHeader),
        ),
{
    lemma_first_index_absent(header_window(s), NUL);
}

/// A stream with a NUL and no space before it is corrupt: it lacks the
/// separator, or, where the NUL lies beyond the window, the terminator.
pub proof fn lemma_no_separator(s: Seq<u8>, z: int)
    requires
        is_first(s, NUL, z),
        forall|i: int| 0 <= i < z ==> s[i] != SPACE,
    ensures
        parse_object(s) == Err::<Seq<u8>, StoreError>(
            StoreError::Corrupt(
                if z < MAX_HEADER_LEN {
                    Malformed::MissingSeparator
                } else {
                    Malformed::TruncatedHeader
                },
            ),
        ),
{
    let window = header_window(s);
    if z < MAX_HEADER_LEN {
        assert(is_first(window, NUL, z));
        lemma_first_index_found(window, NUL, z);
        lemma_first_index_absent(window.take(z), SPACE);
    } else {
        lemma_first_index_absent(window, NUL);
    }
}

/// A header that names a known kind and whose size field is no number is
/// corrupt: the size is bad, or, where the NUL lies beyond the window, the
/// terminator is missing. (With an unknown kind the kind is refused first.)
pub proof fn lemma_bad_size(s: Seq<u8>, z: int, p: int)
    requires
        is_first(s, NUL, z),
        is_first(s.take(z), SPACE, p),
        Kind::from_name(s.take(p)) is Some,
        parse_size(s.subrange(p + 1, z)) is None,
    ensures
        parse_object(s) == Err::<Seq<u8>, StoreError>(
            StoreError::Corrupt(
                if z < MAX_HEADER_LEN {
                    Malformed::BadSize
                } else {
                    Malformed::TruncatedHeader
                },
            ),
        ),
{
    let window = header_window(s);
    if z < MAX_HEADER_LEN {
        assert(is_first(window, NUL, z));
        lemma_first_index_found(window, NUL, z);
        let line = window.take(z);
        assert(line =~= s.take(z));
        lemma_first_index_found(line, SPACE, p);
        assert(line.take(p) =~= s.take(p));
        assert(line.skip(p + 1) =~= s.subrange(p + 1, z));
    } else {
        lemma_first_index_absent(window, NUL);
    }
}

/// A header with its terminator within the window and with a separator,
/// whose kind is not of the enumeration, is refused as unsupported, whatever
/// its size field says.
pub proof fn lemma_unknown_kind(s: Seq<u8>, z: int, p: int)
    requires
        is_first(s, NUL, z),
        z < MAX_HEADER_LEN,
        is_first(s.take(z), SPACE, p),
        Kind::from_name(s.take(p)) is None,
    ensures
        parse_object(s) == Err::<Seq<u8>, StoreError>(StoreError::UnsupportedKind),
{
    let window = header_window(s);
    assert(is_first(window, NUL, z));
    lemma_first_index_found(window, NUL, z);
    let line = window.take(z);
    assert(line =~= s.take(z));
    lemma_first_index_found(line, SPACE, p);
    assert(line.take(p) =~= s.take(p));
}

} // verus!
