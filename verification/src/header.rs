//! The header codec: `"<kind> <size>\0"`, written in ASCII before the content.

use vstd::prelude::*;
use crate::error::{Malformed, StoreError};

verus! {

/// The byte that ends a header.
pub const NUL: u8 = 0;

/// The byte between the kind and the size.
pub const SPACE: u8 = 32;

/// A header's terminator must stand among this many leading bytes.
pub const MAX_HEADER_LEN: usize = 64;

/// Whether `b` is an ASCII decimal digit.
pub open spec fn is_digit(b: u8) -> bool {
    48 <= b <= 57
}

/// The ASCII decimal digits of `n`, most significant first, without leading zeros.
pub open spec fn decimal(n: nat) -> Seq<u8>
    decreases n,
{
    if n < 10 {
        seq![(48 + n) as u8]
    } else {
        decimal(n / 10).push((48 + n % 10) as u8)
    }
}

/// The number that a run of ASCII digits denotes; leading zeros count for nothing.
pub open spec fn digits_value(s: Seq<u8>) -> nat
    decreases s.len(),
{
    if s.len() == 0 {
        0
    } else {
        digits_value(s.drop_last()) * 10 + (s.last() - 48) as nat
    }
}

/// Whether every byte of `s` is an ASCII decimal digit.
pub open spec fn all_digits(s: Seq<u8>) -> bool {
    forall|i: int| 0 <= i < s.len() ==> is_digit(#[trigger] s[i])
}

/// The size that a size field denotes: `None` for an empty field, a field with
/// a non-digit, or a number beyond 64 bits.
pub open spec fn parse_size(s: Seq<u8>) -> Option<u64> {
    if s.len() > 0 && all_digits(s) && digits_value(s) <= u64::MAX {
        Some(digits_value(s) as u64)
    } else {
        None
    }
}

/// A digit run never denotes less than any of its prefixes.
pub proof fn lemma_digits_value_grows(s: Seq<u8>, k: int)
    requires
        all_digits(s),
        0 <= k <= s.len(),
    ensures
        digits_value(s.take(k)) <= digits_value(s),
    decreases s.len(),
{
    if k == s.len() {
        assert(s.take(k) =~= s);
    } else {
        let t = s.drop_last();
        assert(t.take(k) =~= s.take(k));
        assert(is_digit(s[s.len() - 1]));
        lemma_digits_value_grows(t, k);
    }
}

/// The digits of a number are digits, at least one of them, and denote the number.
pub proof fn lemma_decimal_round_trip(n: nat)
    ensures
        decimal(n).len() >= 1,
        all_digits(decimal(n)),
        digits_value(decimal(n)) == n,
    decreases n,
{
    if n < 10 {
        let s = decimal(n);
        assert(s.drop_last() =~= Seq::<u8>::empty());
        assert(digits_value(s.drop_last()) == 0);
        assert(s.last() == (48 + n) as u8);
    } else {
        lemma_decimal_round_trip(n / 10);
        let h = decimal(n / 10);
        let s = decimal(n);
        assert(s == h.push((48 + n % 10) as u8));
        assert(s.drop_last() =~= h);
        assert(s.last() == (48 + n % 10) as u8);
        assert forall|i: int| 0 <= i < s.len() implies is_digit(#[trigger] s[i]) by {
            if i < h.len() {
                assert(s[i] == h[i]);
            }
        }
    }
}

/// Appends the decimal digits of `n` to `out`.
fn push_decimal(n: u64, out: &mut Vec<u8>)
    ensures
        final(out)@ == old(out)@ + decimal(n as nat),
    decreases n,
{
    if n >= 10 {
        push_decimal(n / 10, out);
    }
    let d: u8 = (n % 10) as u8;
    out.push(48 + d);
    proof {
        if n >= 10 {
            assert(final(out)@ =~= old(out)@ + decimal(n as nat));
        } else {
            assert(final(out)@ =~= old(out)@ + decimal(n as nat));
        }
    }
}

/// Writes `n` in ASCII decimal digits, without leading zeros.
pub fn write_size(n: u64) -> (out: Vec<u8>)
    ensures
        out@ == decimal(n as nat),
{
    let mut out: Vec<u8> = Vec::new();
    push_decimal(n, &mut out);
    assert(out@ =~= decimal(n as nat));
    out
}

/// Reads a size field: a non-empty run of ASCII digits that fits in 64 bits.
pub fn read_size(field: &[u8]) -> (res: Option<u64>)
    ensures
        res == parse_size(field@),
{
    if field.len() == 0 {
        return None;
    }
    let mut acc: u64 = 0;
    let mut i: usize = 0;
    while i < field.len()
        invariant
            0 <= i <= field.len(),
            all_digits(field@.take(i as int)),
            acc == digits_value(field@.take(i as int)),
        decreases field.len() - i,
    {
        let b = field[i];
        if b < 48 || b > 57 {
            proof {
                assert(!is_digit(field@[i as int]));
            }
            return None;
        }
        let d: u64 = (b - 48) as u64;
        proof {
            let next = field@.take(i + 1);
            assert(next.drop_last() =~= field@.take(i as int));
            assert(next.last() == b);
            assert forall|j: int| 0 <= j < next.len() implies is_digit(#[trigger] next[j]) by {
                if j < i {
                    assert(next[j] == field@.take(i as int)[j]);
                }
            }
        }
        if acc > (u64::MAX - d) / 10 {
            proof {
                let next = field@.take(i + 1);
                assert(digits_value(next) == acc * 10 + d);
                assert(digits_value(next) > u64::MAX);
                if all_digits(field@) {
                    lemma_digits_value_grows(field@, i + 1);
                }
            }
            return None;
        }
        acc = acc * 10 + d;
        i = i + 1;
    }
    proof {
        assert(field@.take(i as int) =~= field@);
    }
    Some(acc)
}

/// The kinds of object. The enumeration is closed; only blobs are defined.
#[derive(Clone, Copy, Debug, PartialEq, Eq, Structural)]
pub enum Kind {
    /// An opaque, length-prefixed byte payload.
    Blob,
}

impl Kind {
    /// The ASCII name that stands for the kind in a header.
    pub open spec fn name(self) -> Seq<u8> {
        match self {
            Kind::Blob => seq![98u8, 108u8, 111u8, 98u8],
        }
    }

    /// The kind that a name stands for, if it is one of the enumeration.
    pub open spec fn from_name(token: Seq<u8>) -> Option<Kind> {
        if token == Kind::Blob.name() {
            Some(Kind::Blob)
        } else {
            None
        }
    }

    /// Appends the kind's name to `out`.
    fn push_name(self, out: &mut Vec<u8>)
        ensures
            final(out)@ == old(out)@ + self.name(),
    {
        match self {
            Kind::Blob => {
                out.push(98);
                out.push(108);
                out.push(111);
                out.push(98);
            },
        }
        assert(final(out)@ =~= old(out)@ + self.name());
    }

    /// Matches a name against the enumeration.
    pub fn parse(token: &[u8]) -> (res: Option<Kind>)
        ensures
            res == Kind::from_name(token@),
    {
        if token.len() == 4 && token[0] == 98 && token[1] == 108 && token[2] == 111 && token[3]
            == 98 {
            assert(token@ =~= Kind::Blob.name());
            Some(Kind::Blob)
        } else {
            assert(token@ != Kind::Blob.name()) by {
                let name = Kind::Blob.name();
                assert(name.len() == 4);
                assert(name[0] == 98 && name[1] == 108 && name[2] == 111 && name[3] == 98);
            }
            None
        }
    }
}

/// What a header says of the object that follows it.
#[derive(Clone, Copy, Debug, PartialEq, Eq, Structural)]
pub struct ObjectHeader {
    /// The kind of the object.
    pub kind: Kind,
    /// The exact number of content bytes after the terminator, uncompressed.
    pub size: u64,
}

/// A parsed header, and where in the input the content begins.
#[derive(Clone, Copy, Debug, PartialEq, Eq, Structural)]
pub struct Decoded {
    /// The header's fields.
    pub header: ObjectHeader,
    /// The index just past the terminator.
    pub offset: usize,
}

/// The bytes of a header: name, space, decimal size, NUL.
pub open spec fn header_bytes(kind: Kind, size: u64) -> Seq<u8> {
    kind.name() + seq![SPACE] + decimal(size as nat) + seq![NUL]
}

/// Whether `i` is the first index of `s` that holds `b`.
pub open spec fn is_first(s: Seq<u8>, b: u8, i: int) -> bool {
    &&& 0 <= i < s.len()
    &&& s[i] == b
    &&& forall|j: int| 0 <= j < i ==> s[j] != b
}

/// The first index of `s` that holds `b`, if any does.
pub open spec fn first_index(s: Seq<u8>, b: u8) -> Option<int> {
    if exists|i: int| is_first(s, b, i) {
        Some(choose|i: int| is_first(s, b, i))
    } else {
        None
    }
}

/// A first index, once shown, is the one that `first_index` names.
pub proof fn lemma_first_index_found(s: Seq<u8>, b: u8, i: int)
    requires
        is_first(s, b, i),
    ensures
        first_index(s, b) == Some(i),
{
    let c = choose|i: int| is_first(s, b, i);
    assert(is_first(s, b, c));
    if c < i {
        assert(s[c] != b);
    } else if i < c {
        assert(s[i] != b);
    }
}

/// Where no index holds `b`, `first_index` names none.
pub proof fn lemma_first_index_absent(s: Seq<u8>, b: u8)
    requires
        forall|j: int| 0 <= j < s.len() ==> s[j] != b,
    ensures
        first_index(s, b) is None,
{
    if exists|i: int| is_first(s, b, i) {
        let c = choose|i: int| is_first(s, b, i);
        assert(s[c] != b);
    }
}

/// The leading bytes of `s` in which a header's terminator is looked for.
pub open spec fn header_window(s: Seq<u8>) -> Seq<u8> {
    if s.len() > MAX_HEADER_LEN {
        s.take(MAX_HEADER_LEN as int)
    } else {
        s
    }
}

/// What the bytes before a terminator say: kind, then size.
pub open spec fn parse_line(line: Seq<u8>) -> Result<ObjectHeader, StoreError> {
    match first_index(line, SPACE) {
        None => Err(StoreError::Corrupt(Malformed::MissingSeparator)),
        Some(p) => match Kind::from_name(line.take(p)) {
            None => Err(StoreError::UnsupportedKind),
            Some(kind) => match parse_size(line.skip(p + 1)) {
                None => Err(StoreError::Corrupt(Malformed::BadSize)),
                Some(size) => Ok(ObjectHeader { kind, size }),
            },
        },
    }
}

/// What decoding the front of `s` yields.
///
/// The first NUL within the window ends the header; without one the header is
/// truncated. The bytes before it split at their first space; without one the
/// separator is missing. The left part must name a kind, and then the right
/// part must be a size.
pub open spec fn decode_header(s: Seq<u8>) -> Result<Decoded, StoreError> {
    let window = header_window(s);
    match first_index(window, NUL) {
        None => Err(StoreError::Corrupt(Malformed::TruncatedHeader)),
        Some(z) => match parse_line(window.take(z)) {
            Err(e) => Err(e),
            Ok(header) => Ok(Decoded { header, offset: (z + 1) as usize }),
        },
    }
}

/// Finds the first `b` among the first `limit` bytes of `bytes`.
fn find_byte(bytes: &[u8], b: u8, limit: usize) -> (res: Option<usize>)
    requires
        limit <= bytes@.len(),
    ensures
        match res {
            Some(i) => first_index(bytes@.take(limit as int), b) == Some(i as int) && i < limit,
            None => first_index(bytes@.take(limit as int), b) is None,
        },
{
    let ghost window = bytes@.take(limit as int);
    let mut i: usize = 0;
    while i < limit
        invariant
            0 <= i <= limit <= bytes@.len(),
            window == bytes@.take(limit as int),
            forall|j: int| 0 <= j < i ==> window[j] != b,
        decreases limit - i,
    {
        if bytes[i] == b {
            proof {
                assert(window[i as int] == b);
                lemma_first_index_found(window, b, i as int);
            }
            return Some(i);
        }
        i = i + 1;
    }
    proof {
        lemma_first_index_absent(window, b);
    }
    None
}

impl ObjectHeader {
    /// Encodes the header as `name || " " || decimal(size) || "\0"`.
    pub fn encode(&self) -> (out: Vec<u8>)
        ensures
            out@ == header_bytes(self.kind, self.size),
    {
        let mut out: Vec<u8> = Vec::new();
        self.kind.push_name(&mut out);
        out.push(SPACE);
        push_decimal(self.size, &mut out);
        out.push(NUL);
        assert(out@ =~= header_bytes(self.kind, self.size));
        out
    }

    /// Decodes the header at the front of `bytes` and says where the content starts.
    pub fn decode(bytes: &[u8]) -> (res: Result<Decoded, StoreError>)
        ensures
            res == decode_header(bytes@),
    {
        let limit = if bytes.len() > MAX_HEADER_LEN {
            MAX_HEADER_LEN
        } else {
            bytes.len()
        };
        let ghost window = header_window(bytes@);
        assert(window =~= bytes@.take(limit as int));
        let z = match find_byte(bytes, NUL, limit) {
            None => {
                return Err(StoreError::Corrupt(Malformed::TruncatedHeader));
            },
            Some(z) => z,
        };
        let line = vstd::slice::slice_subrange(bytes, 0, z);
        assert(line@ =~= window.take(z as int));
        let p = match find_byte(line, SPACE, z) {
            None => {
                assert(line@.take(z as int) =~= line@);
                return Err(StoreError::Corrupt(Malformed::MissingSeparator));
            },
            Some(p) => p,
        };
        assert(line@.take(z as int) =~= line@);
        let name = vstd::slice::slice_subrange(line, 0, p);
        assert(name@ =~= line@.take(p as int));
        let kind = match Kind::parse(name) {
            None => {
                return Err(StoreError::UnsupportedKind);
            },
            Some(kind) => kind,
        };
        let field = vstd::slice::slice_subrange(line, p + 1, z);
        assert(field@ =~= line@.skip(p + 1));
        match read_size(field) {
            None => Err(StoreError::Corrupt(Malformed::BadSize)),
            Some(size) => Ok(Decoded { header: ObjectHeader { kind, size }, offset: z + 1 }),
        }
    }
}

/// Ten to the power `k`.
pub open spec fn pow10(k: nat) -> nat
    decreases k,
{
    if k == 0 {
        1
    } else {
        10 * pow10((k - 1) as nat)
    }
}

/// A number below `10^k` has at most `k` digits.
pub proof fn lemma_decimal_len(n: nat, k: nat)
    requires
        k >= 1,
        n < pow10(k),
    ensures
        decimal(n).len() <= k,
    decreases k,
{
    if n >= 10 {
        if k == 1 {
            assert(pow10(1) == 10) by {
                reveal_with_fuel(pow10, 2);
            }
        } else {
            lemma_decimal_len(n / 10, (k - 1) as nat);
        }
    }
}

/// A header is at most 26 bytes long: four of name, a space, at most twenty
/// digits, and the terminator.
pub proof fn lemma_header_len(kind: Kind, size: u64)
    ensures
        7 <= header_bytes(kind, size).len() <= 26,
        header_bytes(kind, size).len() == 6 + decimal(size as nat).len(),
{
    assert(pow10(20) == 100_000_000_000_000_000_000nat) by {
        reveal_with_fuel(pow10, 21);
    }
    lemma_decimal_len(size as nat, 20);
    lemma_decimal_round_trip(size as nat);
}

/// Decoding a header, whatever follows it, gives back its fields and its length.
pub proof fn lemma_header_round_trip(kind: Kind, size: u64, rest: Seq<u8>)
    ensures
        decode_header(header_bytes(kind, size) + rest) == Ok::<Decoded, StoreError>(
            Decoded {
                header: ObjectHeader { kind, size },
                offset: header_bytes(kind, size).len() as usize,
            },
        ),
{
    let digits = decimal(size as nat);
    let h = header_bytes(kind, size);
    let s = h + rest;
    let window = header_window(s);
    lemma_header_len(kind, size);
    lemma_decimal_round_trip(size as nat);
    let z = h.len() - 1;
    assert(kind.name().len() == 4);
    assert forall|j: int| 0 <= j <= z implies window[j] == h[j] by {}
    assert forall|j: int| 0 <= j < 4 implies h[j] == kind.name()[j] by {}
    assert(h[4] == SPACE);
    assert forall|j: int| 5 <= j < z implies h[j] == digits[j - 5] by {}
    assert(h[z] == NUL);
    assert forall|j: int| 0 <= j < z implies window[j] != NUL by {
        if 5 <= j {
            assert(is_digit(digits[j - 5]));
        }
    }
    lemma_first_index_found(window, NUL, z);
    let line = window.take(z);
    assert(is_first(line, SPACE, 4));
    lemma_first_index_found(line, SPACE, 4);
    assert(line.take(4) =~= kind.name());
    assert(line.skip(5) =~= digits);
}

/// Decoding looks at no more than the header: a prefix of `s` that ends with
/// the first NUL, or that holds no NUL and either fills the window or is all of
/// `s`, decodes as `s` does.
pub proof fn lemma_decode_prefix(s: Seq<u8>, k: int)
    requires
        0 <= k <= s.len(),
        k <= MAX_HEADER_LEN,
        (k > 0 && is_first(s.take(k), NUL, k - 1)) || ((forall|j: int|
            0 <= j < k ==> s[j] != NUL) && (k == MAX_HEADER_LEN || k == s.len())),
    ensures
        decode_header(s.take(k)) == decode_header(s),
{
    let w1 = header_window(s.take(k));
    let w2 = header_window(s);
    assert(w1 =~= s.take(k));
    if k > 0 && is_first(s.take(k), NUL, k - 1) {
        assert forall|j: int| 0 <= j < k implies w2[j] == s.take(k)[j] by {}
        assert(is_first(w2, NUL, k - 1));
        lemma_first_index_found(w1, NUL, k - 1);
        lemma_first_index_found(w2, NUL, k - 1);
        assert(w1.take(k - 1) =~= w2.take(k - 1));
    } else {
        assert(w2 =~= s.take(k));
    }
}

} // verus!
