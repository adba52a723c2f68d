//! Object identifiers: SHA-1 digests, written as 40 hexadecimal characters.
//!
//! The digest itself comes from the `sha1` crate and its text from `hex`. The
//! functions that call them are taken on trust; what is proved is the shape of
//! the text and that the text tells digests apart.

use vstd::prelude::*;

verus! {

/// The number of bytes in a SHA-1 digest.
pub const DIGEST_LEN: usize = 20;

/// The number of characters in an object hash.
pub const HASH_LEN: usize = 40;

// The streaming SHA-1 hasher of the `sha1` crate.
#[verifier::external_type_specification]
#[verifier::external_body]
pub struct ExSha1(sha1::Sha1);

/// The SHA-1 digest of `data`, as `sha1::Sha1` computes it.
pub uninterp spec fn sha1_digest(data: Seq<u8>) -> Seq<u8>;

/// Whether `a` and `b` are a SHA-1 collision: different bytes, one digest.
pub open spec fn sha1_collision(a: Seq<u8>, b: Seq<u8>) -> bool {
    a != b && sha1_digest(a) == sha1_digest(b)
}

/// The bytes that a hasher has been fed since it was made, in order.
pub uninterp spec fn absorbed(hasher: sha1::Sha1) -> Seq<u8>;

/// `sha1::Digest::new` for `sha1::Sha1`: a hasher in its initial state.
/// Trusted: nothing has been fed to it.
#[verifier::external_body]
pub(crate) fn hasher_new() -> (hasher: sha1::Sha1)
    ensures
        absorbed(hasher) == Seq::<u8>::empty(),
{
    sha1::Digest::new()
}

/// `sha1::Digest::update` for `sha1::Sha1`: processes `data`.
/// Trusted: the hasher has then been fed `data` after all it was fed before.
#[verifier::external_body]
pub(crate) fn hasher_update(hasher: &mut sha1::Sha1, data: &[u8])
    ensures
        absorbed(*final(hasher)) == absorbed(*old(hasher)) + data@,
{
    sha1::Digest::update(hasher, data)
}

/// `sha1::Digest::finalize` for `sha1::Sha1`: consumes the hasher and returns
/// the digest. Trusted: the result is the SHA-1 digest of all that the hasher
/// was fed, and it is 20 bytes long.
#[verifier::external_body]
pub(crate) fn hasher_finalize(hasher: sha1::Sha1) -> (digest: Vec<u8>)
    ensures
        digest@ == sha1_digest(absorbed(hasher)),
        digest@.len() == DIGEST_LEN,
{
    sha1::Digest::finalize(hasher).to_vec()
}

/// The lowercase hexadecimal digit for a value below 16.
pub open spec fn hex_digit(n: int) -> char {
    if n == 0 {
        '0'
    } else if n == 1 {
        '1'
    } else if n == 2 {
        '2'
    } else if n == 3 {
        '3'
    } else if n == 4 {
        '4'
    } else if n == 5 {
        '5'
    } else if n == 6 {
        '6'
    } else if n == 7 {
        '7'
    } else if n == 8 {
        '8'
    } else if n == 9 {
        '9'
    } else if n == 10 {
        'a'
    } else if n == 11 {
        'b'
    } else if n == 12 {
        'c'
    } else if n == 13 {
        'd'
    } else if n == 14 {
        'e'
    } else {
        'f'
    }
}

/// The lowercase hexadecimal text of `data`: two digits for each byte, the
/// high half first.
pub open spec fn hex_lower(data: Seq<u8>) -> Seq<char> {
    Seq::new(
        2 * data.len(),
        |i: int|
            if i % 2 == 0 {
                hex_digit(data[i / 2] as int / 16)
            } else {
                hex_digit(data[i / 2] as int % 16)
            },
    )
}

/// `hex::encode`: the lowercase hexadecimal text of `data`.
/// Trusted: each byte becomes two lowercase digits, high half first.
#[verifier::external_body]
pub(crate) fn hex_encode(data: &[u8]) -> (text: String)
    ensures
        text@ == hex_lower(data@),
{
    hex::encode(data)
}

/// Whether `c` is a hexadecimal digit, of either case.
pub open spec fn is_hex_char(c: char) -> bool {
    ('0' <= c && c <= '9') || ('a' <= c && c <= 'f') || ('A' <= c && c <= 'F')
}

/// Whether `text` has the shape of an object hash: 40 hexadecimal characters.
pub open spec fn is_object_hash(text: Seq<char>) -> bool {
    &&& text.len() == HASH_LEN
    &&& forall|i: int| 0 <= i < text.len() ==> is_hex_char(#[trigger] text[i])
}

/// The hexadecimal text of a 20-byte digest has the shape of an object hash.
pub proof fn lemma_hex_of_digest_is_hash(digest: Seq<u8>)
    requires
        digest.len() == DIGEST_LEN,
    ensures
        is_object_hash(hex_lower(digest)),
{
    let text = hex_lower(digest);
    assert forall|i: int| 0 <= i < text.len() implies is_hex_char(#[trigger] text[i]) by {
        let b = digest[i / 2] as int;
        assert(0 <= b / 16 < 16);
        assert(0 <= b % 16 < 16);
    }
}

/// Distinct byte strings have distinct hexadecimal texts.
pub proof fn lemma_hex_lower_injective(a: Seq<u8>, b: Seq<u8>)
    requires
        hex_lower(a) == hex_lower(b),
    ensures
        a == b,
{
    let ta = hex_lower(a);
    let tb = hex_lower(b);
    assert(ta.len() == 2 * a.len());
    assert(tb.len() == 2 * b.len());
    assert(a.len() == b.len());
    assert forall|k: int| 0 <= k < a.len() implies a[k] == b[k] by {
        let x = a[k] as int;
        let y = b[k] as int;
        assert(ta[2 * k] == tb[2 * k]);
        assert(ta[2 * k + 1] == tb[2 * k + 1]);
        assert((2 * k) % 2 == 0 && (2 * k) / 2 == k);
        assert((2 * k + 1) % 2 == 1 && (2 * k + 1) / 2 == k);
        assert(ta[2 * k] == hex_digit(x / 16));
        assert(tb[2 * k] == hex_digit(y / 16));
        assert(ta[2 * k + 1] == hex_digit(x % 16));
        assert(tb[2 * k + 1] == hex_digit(y % 16));
        assert(0 <= x / 16 < 16 && 0 <= y / 16 < 16);
        assert(0 <= x % 16 < 16 && 0 <= y % 16 < 16);
        assert(x / 16 == y / 16);
        assert(x % 16 == y % 16);
        assert(x == 16 * (x / 16) + x % 16);
        assert(y == 16 * (y / 16) + y % 16);
    }
    assert(a =~= b);
}

/// Tests whether `text` is 40 hexadecimal characters.
pub fn check_object_hash(text: &str) -> (ok: bool)
    ensures
        ok == is_object_hash(text@),
{
    if text.unicode_len() != HASH_LEN {
        return false;
    }
    let mut i: usize = 0;
    while i < HASH_LEN
        invariant
            0 <= i <= HASH_LEN,
            text@.len() == HASH_LEN,
            forall|j: int| 0 <= j < i ==> is_hex_char(#[trigger] text@[j]),
        decreases HASH_LEN - i,
    {
        let c = text.get_char(i);
        let hex = (c >= '0' && c <= '9') || (c >= 'a' && c <= 'f') || (c >= 'A' && c <= 'F');
        if !hex {
            assert(!is_hex_char(text@[i as int]));
            return false;
        }
        i = i + 1;
    }
    true
}

} // verus!
