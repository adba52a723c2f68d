//! The compression codec: zlib streams over in-memory bytes.
//!
//! Everything here is a thin shell around `flate2`, and of the functions that
//! make the calls nothing is proved: each contract says what is taken on trust
//! of the call that the body makes. The names without a body are what the rest
//! of the library reasons with.
//!
//! Of the decoder it is taken that it does not fail on an intact stream, and
//! of the encoder that what it emits is intact and decodes to what it took.
//! Of the encoder it is not taken that it never refuses: whether it refuses is
//! its own to say, and has a name here for each of its three calls.

use vstd::prelude::*;

verus! {

// The error of `std::io`, carried through and never looked into.
#[verifier::external_type_specification]
#[verifier::external_body]
pub struct ExIoError(std::io::Error);

// The in-memory reader of `std::io` that the decoder draws from.
#[verifier::external_type_specification]
#[verifier::external_body]
#[verifier::reject_recursive_types(T)]
pub struct ExCursor<T>(std::io::Cursor<T>);

// The streaming zlib decoder of `flate2`.
#[verifier::external_type_specification]
#[verifier::external_body]
#[verifier::reject_recursive_types(R)]
pub struct ExZlibDecoder<R>(flate2::read::ZlibDecoder<R>);

/// A `flate2::write::ZlibEncoder` that compresses into a vector.
///
/// The encoder's own type bounds its sink by `std::io::Write`, which keeps it
/// from being declared to the verifier as the decoder is; so it is held in
/// here, out of the verifier's sight, and reached through the four functions
/// below.
#[verifier::external_body]
pub struct Deflater {
    inner: flate2::write::ZlibEncoder<Vec<u8>>,
}

/// A zlib decoder that reads its compressed input from memory.
pub type Inflater = flate2::read::ZlibDecoder<std::io::Cursor<Vec<u8>>>;

/// The plain bytes that `flate2`'s zlib decoder produces from `packed`, up to
/// where the stream ends or breaks.
pub uninterp spec fn inflated(packed: Seq<u8>) -> Seq<u8>;

/// Whether `packed` starts with a whole, well-formed zlib stream, so that the
/// decoder reads it to its end without a failure.
pub uninterp spec fn intact(packed: Seq<u8>) -> bool;

/// The plain bytes that a decoder has yet to hand out.
pub uninterp spec fn pending(source: flate2::read::ZlibDecoder<std::io::Cursor<Vec<u8>>>) -> Seq<u8>;

/// Whether the stream that a decoder reads is intact.
pub uninterp spec fn sound(source: flate2::read::ZlibDecoder<std::io::Cursor<Vec<u8>>>) -> bool;

/// The plain bytes that an encoder has accepted so far, in order.
pub uninterp spec fn accepted(sink: Deflater) -> Seq<u8>;

/// Whether an encoder, as it stands, refuses a write of `buf`.
pub uninterp spec fn write_refused(sink: Deflater, buf: Seq<u8>) -> bool;

/// Whether an encoder, as it stands, refuses a flush.
pub uninterp spec fn flush_refused(sink: Deflater) -> bool;

/// Whether an encoder, as it stands, refuses to finish.
pub uninterp spec fn finish_refused(sink: Deflater) -> bool;

/// Whether the encoder refused a write on the way through `plain`: some
/// encoder that had accepted the first `k` bytes of `plain` refused a write of
/// the bytes from `k` to `j`.
pub open spec fn write_refused_on(plain: Seq<u8>) -> bool {
    exists|sink: Deflater, k: int, j: int|
        0 <= k <= j <= plain.len() && accepted(sink) == plain.take(k) && #[trigger] write_refused(
            sink,
            plain.subrange(k, j),
        )
}

/// Whether the encoder refused to finish after `plain`: some encoder that had
/// accepted all of `plain` refused to end its stream.
pub open spec fn finish_refused_on(plain: Seq<u8>) -> bool {
    exists|sink: Deflater| accepted(sink) == plain && #[trigger] finish_refused(sink)
}

/// Whether the encoder refused anywhere on the way through `plain`, the end of
/// the stream included.
pub open spec fn refused_on(plain: Seq<u8>) -> bool {
    write_refused_on(plain) || finish_refused_on(plain)
}

/// A write that was refused on the way through some bytes was refused on the
/// way through any bytes that start with them.
pub proof fn lemma_write_refused_on_longer(plain: Seq<u8>, more: Seq<u8>)
    requires
        write_refused_on(plain),
    ensures
        write_refused_on(plain + more),
{
    let (sink, k, j) = choose|sink: Deflater, k: int, j: int|
        0 <= k <= j <= plain.len() && accepted(sink) == plain.take(k) && #[trigger] write_refused(
            sink,
            plain.subrange(k, j),
        );
    let longer = plain + more;
    assert(longer.take(k) =~= plain.take(k));
    assert(longer.subrange(k, j) =~= plain.subrange(k, j));
    assert(write_refused(sink, longer.subrange(k, j)));
}

/// `flate2::read::ZlibDecoder::new` over a `std::io::Cursor` on `packed`.
/// Trusted: the decoder has all of the decoded stream still to hand out, and
/// the stream it reads is intact if and only if `packed` is.
#[verifier::external_body]
pub(crate) fn decoder_open(packed: Vec<u8>) -> (source: Inflater)
    ensures
        pending(source) == inflated(packed@),
        sound(source) == intact(packed@),
{
    flate2::read::ZlibDecoder::new(std::io::Cursor::new(packed))
}

/// `std::io::Read::read` on the decoder, into a fresh buffer of `max` bytes
/// that is cut to the count returned.
///
/// Trusted: a read from an intact stream succeeds; `flate2` fails a read only
/// where the compressed data is corrupt or ends before its stream does. Of a
/// read that succeeds: the bytes returned are the next ones pending, in order
/// and at most `max` of them; they are pending no longer; the stream is as
/// intact as it was; and a read that asked for at least one byte returns none
/// only at the end of the stream, which is reached only if the stream is
/// intact, and then nothing is pending. Of a read that fails nothing more is
/// claimed.
#[verifier::external_body]
pub(crate) fn decoder_read(source: &mut Inflater, max: usize) -> (res: Result<
    Vec<u8>,
    std::io::Error,
>)
    ensures
        sound(*old(source)) ==> res is Ok,
        match res {
            Ok(chunk) => {
                &&& chunk@.len() <= max
                &&& chunk@.len() <= pending(*old(source)).len()
                &&& chunk@ == pending(*old(source)).take(chunk@.len() as int)
                &&& pending(*final(source)) == pending(*old(source)).skip(chunk@.len() as int)
                &&& sound(*final(source)) == sound(*old(source))
                &&& (chunk@.len() == 0 && max > 0 ==> pending(*old(source)).len() == 0 && sound(
                    *old(source),
                ))
            },
            Err(_) => true,
        },
{
    let mut chunk = vec![0u8; max];
    let n = std::io::Read::read(source, &mut chunk)?;
    chunk.truncate(n);
    Ok(chunk)
}

/// `flate2::write::ZlibEncoder::new` over an empty vector, at the default
/// compression level. Trusted: the encoder has accepted nothing yet.
#[verifier::external_body]
pub(crate) fn encoder_open() -> (sink: Deflater)
    ensures
        accepted(sink) == Seq::<u8>::empty(),
{
    Deflater { inner: flate2::write::ZlibEncoder::new(Vec::new(), flate2::Compression::default()) }
}

/// `std::io::Write::write` on the encoder.
///
/// Trusted: whether the write fails is for the encoder, as it stands, and the
/// buffer to say, and `write_refused` is the name of what they say. Of a write
/// that succeeds: the count returned is at most the length of `buf`, and the
/// encoder has accepted that many leading bytes of `buf` after all it had
/// accepted before. The count is not zero unless `buf` is empty: `flate2`'s
/// writer calls the compressor again until it has taken something, and gives
/// up on a non-empty buffer only when the compressor reports the end of its
/// stream, which it does after `finish` alone; and `finish` consumes the
/// encoder.
#[verifier::external_body]
pub(crate) fn encoder_write(sink: &mut Deflater, buf: &[u8]) -> (res: Result<usize, std::io::Error>)
    ensures
        (res is Err) == write_refused(*old(sink), buf@),
        match res {
            Ok(n) => {
                &&& n <= buf@.len()
                &&& (buf@.len() > 0 ==> n > 0)
                &&& accepted(*final(sink)) == accepted(*old(sink)) + buf@.take(n as int)
            },
            Err(_) => true,
        },
{
    std::io::Write::write(&mut sink.inner, buf)
}

/// `std::io::Write::flush` on the encoder: pushes buffered output through.
/// Trusted: a flush takes in no plain bytes, and whether it fails is for the
/// encoder as it stands to say, under the name `flush_refused`.
#[verifier::external_body]
pub(crate) fn encoder_flush(sink: &mut Deflater) -> (res: Result<(), std::io::Error>)
    ensures
        (res is Err) == flush_refused(*old(sink)),
        accepted(*final(sink)) == accepted(*old(sink)),
{
    std::io::Write::flush(&mut sink.inner)
}

/// `flate2::write::ZlibEncoder::finish`: ends the stream and returns the
/// compressed bytes.
///
/// Trusted: whether it fails is for the encoder as it stands to say, under the
/// name `finish_refused`. Where it succeeds, this is the codec's round trip:
/// the bytes returned are an intact stream, and decoding them produces exactly
/// the plain bytes that the encoder accepted.
#[verifier::external_body]
pub(crate) fn encoder_finish(sink: Deflater) -> (res: Result<Vec<u8>, std::io::Error>)
    ensures
        (res is Err) == finish_refused(sink),
        match res {
            Ok(packed) => inflated(packed@) == accepted(sink) && intact(packed@),
            Err(_) => true,
        },
{
    sink.inner.finish()
}

} // verus!
