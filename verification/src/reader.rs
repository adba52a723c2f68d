//! The read path: decompress, parse the header, and hold the content to the
//! size that the header declares.

use vstd::prelude::*;
use crate::error::{SizeFault, StoreError};
use crate::header::{decode_header, header_window, is_first};
use crate::header::{lemma_decode_prefix, lemma_first_index_absent, lemma_first_index_found};
use crate::header::{Decoded, ObjectHeader, MAX_HEADER_LEN, NUL};
use crate::object::parse_object;
use crate::zlib::{decoder_open, decoder_read, inflated, intact, pending, sound, Inflater};

verus! {

/// The most bytes that one read of the content asks for.
pub const CHUNK_LEN: usize = 8192;

/// How many bytes a bounded read asks of its source: one more than the limit
/// still allows where the caller has room for that, so that a source that runs
/// past the limit is caught in the act; otherwise all the caller has room for.
pub open spec fn request_len(limit: u64, max: usize) -> usize {
    if max > limit {
        (limit + 1) as usize
    } else {
        max
    }
}

/// What a bounded reader makes of `n` bytes that its source returned while
/// `limit` more were allowed: the new limit, or the fault.
///
/// With nothing left to allow, any byte is trailing data. Otherwise a count
/// above the limit exceeds it, and a count within it is taken off.
pub open spec fn charged(limit: u64, n: usize) -> Result<u64, SizeFault> {
    if n <= limit {
        Ok((limit - n) as u64)
    } else if limit == 0 {
        Err(SizeFault::TrailingData)
    } else {
        Err(SizeFault::LimitExceeded)
    }
}

/// Computes how many bytes to ask of the source.
pub fn request(limit: u64, max: usize) -> (ask: usize)
    ensures
        ask == request_len(limit, max),
        ask <= max,
        max > 0 ==> ask > 0,
{
    if max as u64 > limit {
        (limit + 1) as usize
    } else {
        max
    }
}

/// Judges a count of bytes that the source returned against the limit.
pub fn charge(limit: u64, n: usize) -> (res: Result<u64, SizeFault>)
    ensures
        res == charged(limit, n),
{
    if n as u64 <= limit {
        Ok(limit - n as u64)
    } else if limit == 0 {
        Err(SizeFault::TrailingData)
    } else {
        Err(SizeFault::LimitExceeded)
    }
}

/// A decompressed byte source together with the number of bytes that it may
/// still yield.
pub struct LimitReader {
    reader: Inflater,
    size: u64,
    limit: u64,
}

impl LimitReader {
    /// The number of bytes that the reader may still yield.
    pub closed spec fn remaining(&self) -> nat {
        self.limit as nat
    }

    /// The number of bytes that the reader was opened for.
    pub closed spec fn declared(&self) -> u64 {
        self.size
    }

    /// Whether the stream that the source decodes is intact, so that the
    /// source does not fail.
    pub closed spec fn healthy(&self) -> bool {
        sound(self.reader)
    }

    /// The bytes that the source has yet to hand out.
    pub closed spec fn upcoming(&self) -> Seq<u8> {
        pending(self.reader)
    }

    /// Opens a reader on the zlib stream `packed`, allowed to yield `size` bytes.
    pub fn open(packed: Vec<u8>, size: u64) -> (r: LimitReader)
        ensures
            r.declared() == size,
            r.remaining() == size,
            r.upcoming() == inflated(packed@),
            r.healthy() == intact(packed@),
    {
        LimitReader { reader: decoder_open(packed), size, limit: size }
    }

    /// The number of bytes that the reader may still yield.
    pub fn limit(&self) -> (n: u64)
        ensures
            n == self.remaining(),
    {
        self.limit
    }

    /// Reads up to `max` bytes, never more than the limit allows.
    ///
    /// The bytes returned are the next ones of the source, and they are taken
    /// off the limit. An empty result for `max > 0` is the end of the source,
    /// which only an intact stream reaches. A source that hands out more than
    /// the limit allows fails the read with `LimitExceeded`, or with
    /// `TrailingData` once the limit is used up; either shows that the source
    /// held more than the limit. The source's own failure is `IoFailure`, and
    /// the source of an intact stream does not fail. A read that fails leaves
    /// the limit as it was.
    pub fn read(&mut self, max: usize) -> (res: Result<Vec<u8>, StoreError>)
        ensures
            final(self).declared() == old(self).declared(),
            old(self).healthy() ==> !(res matches Err(StoreError::IoFailure)),
            res is Err ==> final(self).remaining() == old(self).remaining(),
            match res {
                Ok(chunk) => {
                    &&& chunk@.len() <= max
                    &&& chunk@.len() <= old(self).remaining()
                    &&& chunk@.len() <= old(self).upcoming().len()
                    &&& chunk@ == old(self).upcoming().take(chunk@.len() as int)
                    &&& final(self).upcoming() == old(self).upcoming().skip(chunk@.len() as int)
                    &&& final(self).remaining() == old(self).remaining() - chunk@.len()
                    &&& final(self).healthy() == old(self).healthy()
                    &&& (chunk@.len() == 0 && max > 0 ==> old(self).upcoming().len() == 0 && old(
                        self,
                    ).healthy())
                },
                Err(StoreError::SizeMismatch { expected, fault: SizeFault::LimitExceeded }) => {
                    &&& expected == old(self).declared()
                    &&& old(self).remaining() > 0
                    &&& old(self).upcoming().len() > old(self).remaining()
                },
                Err(StoreError::SizeMismatch { expected, fault: SizeFault::TrailingData }) => {
                    &&& expected == old(self).declared()
                    &&& old(self).remaining() == 0
                    &&& old(self).upcoming().len() > 0
                },
                Err(e) => e == StoreError::IoFailure,
            },
    {
        let ask = request(self.limit, max);
        let chunk = match decoder_read(&mut self.reader, ask) {
            Ok(chunk) => chunk,
            Err(_) => {
                return Err(StoreError::IoFailure);
            },
        };
        match charge(self.limit, chunk.len()) {
            Ok(left) => {
                self.limit = left;
                Ok(chunk)
            },
            Err(fault) => Err(StoreError::SizeMismatch { expected: self.size, fault }),
        }
    }
}

/// Whether the outcome `got` of reading a compressed stream agrees with what
/// its plain bytes hold, `want`, the stream being `whole` (intact) or not.
///
/// Content is returned only from a whole stream, and only where the plain
/// bytes hold exactly that content. `IoFailure` comes only of a stream that is
/// not whole. Any other error is the one that the plain bytes call for, with
/// one allowance: a stream that runs past its declared size may be caught as
/// either of the two overruns, depending on how the codec portions its output.
///
/// So of a whole stream the outcome is what its plain bytes hold. Of a broken
/// one it is never content: it is `IoFailure`, or the error that shows in the
/// plain bytes before the break.
pub open spec fn reading_agrees(
    got: Result<Vec<u8>, StoreError>,
    want: Result<Seq<u8>, StoreError>,
    whole: bool,
) -> bool {
    match got {
        Ok(content) => whole && want == Ok::<Seq<u8>, StoreError>(content@),
        Err(StoreError::IoFailure) => !whole,
        Err(e) => want == Err::<Seq<u8>, StoreError>(e) || (want matches Err(
            StoreError::SizeMismatch { expected, fault: SizeFault::TrailingData },
        ) && e.is_overrun(expected)),
    }
}

/// Reads the header off the front of the source, one byte at a time, so that
/// the source is left at the first byte of the content.
fn read_header(source: &mut Inflater) -> (res: Result<Decoded, StoreError>)
    ensures
        match res {
            Ok(d) => {
                &&& decode_header(pending(*old(source))) == Ok::<Decoded, StoreError>(d)
                &&& d.offset <= pending(*old(source)).len()
                &&& pending(*final(source)) == pending(*old(source)).skip(d.offset as int)
                &&& sound(*final(source)) == sound(*old(source))
            },
            Err(StoreError::IoFailure) => !sound(*old(source)),
            Err(e) => decode_header(pending(*old(source))) == Err::<Decoded, StoreError>(e),
        },
{
    let ghost stream = pending(*source);
    let mut head: Vec<u8> = Vec::new();
    while head.len() < MAX_HEADER_LEN
        invariant
            head@.len() <= MAX_HEADER_LEN,
            head@.len() <= stream.len(),
            head@ == stream.take(head@.len() as int),
            pending(*source) == stream.skip(head@.len() as int),
            sound(*source) == sound(*old(source)),
            stream == pending(*old(source)),
            forall|j: int| 0 <= j < head@.len() ==> stream[j] != NUL,
        decreases MAX_HEADER_LEN - head@.len(),
    {
        let chunk = match decoder_read(source, 1) {
            Ok(chunk) => chunk,
            Err(_) => {
                return Err(StoreError::IoFailure);
            },
        };
        if chunk.len() == 0 {
            proof {
                lemma_decode_prefix(stream, head@.len() as int);
            }
            return ObjectHeader::decode(head.as_slice());
        }
        let b = chunk[0];
        let ghost k = head@.len() as int;
        head.push(b);
        proof {
            assert(stream.skip(k)[0] == b);
            assert(head@ =~= stream.take(k + 1));
            assert(stream.skip(k).skip(1) =~= stream.skip(k + 1));
        }
        if b == NUL {
            proof {
                assert(is_first(stream.take(k + 1), NUL, k));
                lemma_decode_prefix(stream, k + 1);
                lemma_first_index_found(header_window(stream.take(k + 1)), NUL, k);
            }
            return ObjectHeader::decode(head.as_slice());
        }
    }
    proof {
        lemma_decode_prefix(stream, head@.len() as int);
        lemma_first_index_absent(header_window(head@), NUL);
    }
    ObjectHeader::decode(head.as_slice())
}

/// Recovers the content of the object whose compressed encoding is `packed`.
///
/// The stream is decompressed as it is read: first the header, then the
/// content in portions through a `LimitReader`, and at last one more read that
/// must find the end of the stream. No more than the declared size is ever
/// held. The outcome agrees with what the decoded stream holds, in the sense of
/// `reading_agrees`: of an intact stream it is what the plain bytes hold, and
/// content comes of an intact stream only.
pub fn read_blob(packed: &[u8]) -> (res: Result<Vec<u8>, StoreError>)
    ensures
        reading_agrees(res, parse_object(inflated(packed@)), intact(packed@)),
{
    let mut source = decoder_open(vstd::slice::slice_to_vec(packed));
    let ghost stream = pending(source);
    let decoded = match read_header(&mut source) {
        Ok(decoded) => decoded,
        Err(e) => {
            return Err(e);
        },
    };
    let size = decoded.header.size;
    let ghost body = stream.skip(decoded.offset as int);
    let mut reader = LimitReader { reader: source, size, limit: size };
    let mut content: Vec<u8> = Vec::new();
    loop
        invariant
            stream == inflated(packed@),
            reader.healthy() == intact(packed@),
            decode_header(stream) == Ok::<Decoded, StoreError>(decoded),
            body == stream.skip(decoded.offset as int),
            size == decoded.header.size,
            reader.declared() == size,
            content@ + reader.upcoming() == body,
            content@.len() + reader.remaining() == size,
        decreases reader.remaining(),
    {
        let ghost ahead = reader.upcoming();
        let chunk = match reader.read(CHUNK_LEN) {
            Ok(chunk) => chunk,
            Err(e) => {
                return Err(e);
            },
        };
        if chunk.len() == 0 {
            proof {
                assert(content@ =~= body);
            }
            if reader.limit() > 0 {
                return Err(
                    StoreError::SizeMismatch {
                        expected: size,
                        fault: SizeFault::ShortRead { actual: content.len() as u64 },
                    },
                );
            }
            return Ok(content);
        }
        proof {
            assert(chunk@ + reader.upcoming() =~= ahead);
            assert((content@ + chunk@) + reader.upcoming() =~= content@ + ahead);
        }
        content.extend_from_slice(chunk.as_slice());
    }
}

/// The size mismatch of a stream `s` that ends before the size that its
/// header `d` declares: what was expected, and what there was.
pub open spec fn short_read(d: Decoded, s: Seq<u8>) -> StoreError {
    StoreError::SizeMismatch {
        expected: d.header.size,
        fault: SizeFault::ShortRead { actual: (s.len() - d.offset) as u64 },
    }
}

/// Plain bytes whose header parses and is followed by fewer bytes than it
/// declares hold no content, and reading them ends in `ShortRead`; it can end
/// in the codec's failure only if the compressed stream is not whole.
pub proof fn lemma_short_stream(
    s: Seq<u8>,
    d: Decoded,
    whole: bool,
    got: Result<Vec<u8>, StoreError>,
)
    requires
        decode_header(s) == Ok::<Decoded, StoreError>(d),
        s.len() - d.offset < d.header.size,
        reading_agrees(got, parse_object(s), whole),
    ensures
        parse_object(s) == Err::<Seq<u8>, StoreError>(short_read(d, s)),
        got == Err::<Vec<u8>, StoreError>(short_read(d, s)) || (!whole && got == Err::<
            Vec<u8>,
            StoreError,
        >(StoreError::IoFailure)),
{
}

/// Plain bytes whose header parses and is followed by more bytes than it
/// declares hold no content, and reading them ends in one of the two
/// overruns; it can end in the codec's failure only if the compressed stream
/// is not whole.
pub proof fn lemma_long_stream(
    s: Seq<u8>,
    d: Decoded,
    whole: bool,
    got: Result<Vec<u8>, StoreError>,
)
    requires
        decode_header(s) == Ok::<Decoded, StoreError>(d),
        d.offset <= s.len(),
        s.len() - d.offset > d.header.size,
        reading_agrees(got, parse_object(s), whole),
    ensures
        parse_object(s) == Err::<Seq<u8>, StoreError>(
            StoreError::SizeMismatch { expected: d.header.size, fault: SizeFault::TrailingData },
        ),
        got matches Err(e) && (e.is_overrun(d.header.size) || (!whole && e
            == StoreError::IoFailure)),
{
}

} // verus!
