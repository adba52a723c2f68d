//! The write path: frame, hash while streaming, compress.

use vstd::prelude::*;
use crate::error::{SizeFault, StoreError};
use crate::hash::{absorbed, hasher_finalize, hasher_new, hasher_update, hex_encode};
use crate::hash::{is_object_hash, lemma_hex_of_digest_is_hash, sha1_digest, DIGEST_LEN};
use crate::header::{header_bytes, Kind, ObjectHeader};
use crate::object::{object_bytes, object_id};
use crate::zlib::{accepted, encoder_finish, encoder_flush, encoder_open, encoder_write};
use crate::zlib::{finish_refused, finish_refused_on, flush_refused, inflated, intact};
use crate::zlib::{lemma_write_refused_on_longer, refused_on, write_refused, write_refused_on};
use crate::zlib::Deflater;

verus! {

/// A sink decorator: bytes go to the compressing sink, and every byte that the
/// sink accepts is folded into a running SHA-1 state. The digest is therefore
/// one of the plain bytes, never of the compressed ones.
pub struct HashWriter {
    writer: Deflater,
    hasher: sha1::Sha1,
}

/// What a finished `HashWriter` leaves behind.
pub struct Sealed {
    /// The SHA-1 digest of the plain bytes, 20 bytes long.
    pub digest: Vec<u8>,
    /// The zlib stream of the plain bytes.
    pub packed: Vec<u8>,
}

impl HashWriter {
    /// The plain bytes that the compressing sink has accepted.
    pub closed spec fn forwarded(&self) -> Seq<u8> {
        accepted(self.writer)
    }

    /// The plain bytes that the digest covers.
    pub closed spec fn hashed(&self) -> Seq<u8> {
        absorbed(self.hasher)
    }

    /// Whether the sink, as it stands, refuses a write of `buf`.
    pub closed spec fn refuses(&self, buf: Seq<u8>) -> bool {
        write_refused(self.writer, buf)
    }

    /// Whether the sink, as it stands, refuses a flush.
    pub closed spec fn refuses_flush(&self) -> bool {
        flush_refused(self.writer)
    }

    /// Whether the sink, as it stands, refuses to finish.
    pub closed spec fn refuses_finish(&self) -> bool {
        finish_refused(self.writer)
    }

    /// A writer that has seen nothing.
    pub fn new() -> (w: HashWriter)
        ensures
            w.forwarded() == Seq::<u8>::empty(),
            w.hashed() == Seq::<u8>::empty(),
    {
        HashWriter { writer: encoder_open(), hasher: hasher_new() }
    }

    /// Offers `buf` to the sink and hashes the part that the sink accepted.
    ///
    /// On success the count `n` of accepted bytes is returned, and both the
    /// sink and the digest have moved on by the first `n` bytes of `buf`. Of a
    /// buffer that is not empty the sink accepts at least one byte, so that
    /// writing the rest again and again comes to an end. The write fails where
    /// the sink refuses it, and only there; that is reported as `IoFailure`,
    /// and the digest is then unchanged.
    pub fn write(&mut self, buf: &[u8]) -> (res: Result<usize, StoreError>)
        ensures
            (res is Err) == old(self).refuses(buf@),
            match res {
                Ok(n) => {
                    &&& n <= buf@.len()
                    &&& (buf@.len() > 0 ==> n > 0)
                    &&& final(self).forwarded() == old(self).forwarded() + buf@.take(n as int)
                    &&& final(self).hashed() == old(self).hashed() + buf@.take(n as int)
                },
                Err(e) => e == StoreError::IoFailure && final(self).hashed() == old(self).hashed(),
            },
    {
        let n = match encoder_write(&mut self.writer, buf) {
            Ok(n) => n,
            Err(_) => {
                return Err(StoreError::IoFailure);
            },
        };
        let part = vstd::slice::slice_subrange(buf, 0, n);
        hasher_update(&mut self.hasher, part);
        Ok(n)
    }

    /// Writes all of `buf`, calling `write` until nothing is left. Every call
    /// takes at least one byte of the rest, or fails. It fails only where the
    /// sink, having taken all before `buf` and some of `buf`, refused a write
    /// of the rest; that ends the operation with `IoFailure`.
    pub fn write_all(&mut self, buf: &[u8]) -> (res: Result<(), StoreError>)
        ensures
            match res {
                Ok(()) => {
                    &&& final(self).forwarded() == old(self).forwarded() + buf@
                    &&& final(self).hashed() == old(self).hashed() + buf@
                },
                Err(e) => {
                    &&& e == StoreError::IoFailure
                    &&& write_refused_on(old(self).forwarded() + buf@)
                },
            },
    {
        let ghost start = self.forwarded();
        let mut done: usize = 0;
        while done < buf.len()
            invariant
                0 <= done <= buf@.len(),
                start == old(self).forwarded(),
                self.forwarded() == old(self).forwarded() + buf@.take(done as int),
                self.hashed() == old(self).hashed() + buf@.take(done as int),
            decreases buf@.len() - done,
        {
            let rest = vstd::slice::slice_subrange(buf, done, buf.len());
            let ghost before = *self;
            let n = match self.write(rest) {
                Ok(n) => n,
                Err(e) => {
                    proof {
                        let plain = start + buf@;
                        let k = start.len() + done;
                        let j = plain.len() as int;
                        assert(plain.take(k) =~= start + buf@.take(done as int));
                        assert(plain.subrange(k, j) =~= rest@);
                        assert(write_refused(before.writer, plain.subrange(k, j)));
                    }
                    return Err(e);
                },
            };
            proof {
                assert(buf@.take(done as int) + rest@.take(n as int) =~= buf@.take(done + n));
            }
            done = done + n;
        }
        proof {
            assert(buf@.take(done as int) =~= buf@);
        }
        Ok(())
    }

    /// Pushes buffered compressed output through the sink. No plain byte is
    /// taken in, so neither the sink's input nor the digest moves. What a
    /// flush does shows in the compressed bytes alone, which the writer hands
    /// out at `finish`. It fails where the sink refuses it, and only there.
    pub fn flush(&mut self) -> (res: Result<(), StoreError>)
        ensures
            (res is Err) == old(self).refuses_flush(),
            final(self).forwarded() == old(self).forwarded(),
            final(self).hashed() == old(self).hashed(),
            res matches Err(e) ==> e == StoreError::IoFailure,
    {
        match encoder_flush(&mut self.writer) {
            Ok(()) => Ok(()),
            Err(_) => Err(StoreError::IoFailure),
        }
    }

    /// Ends the compressed stream and finalizes the digest.
    ///
    /// On success the digest is the SHA-1 of the bytes hashed, and the packed
    /// bytes are an intact stream that decodes to the bytes forwarded. It
    /// fails where the sink refuses to finish, and only there.
    pub fn finish(self) -> (res: Result<Sealed, StoreError>)
        ensures
            (res is Err) == self.refuses_finish(),
            match res {
                Ok(sealed) => {
                    &&& sealed.digest@ == sha1_digest(self.hashed())
                    &&& sealed.digest@.len() == DIGEST_LEN
                    &&& inflated(sealed.packed@) == self.forwarded()
                    &&& intact(sealed.packed@)
                },
                Err(e) => e == StoreError::IoFailure,
            },
    {
        let packed = match encoder_finish(self.writer) {
            Ok(packed) => packed,
            Err(_) => {
                return Err(StoreError::IoFailure);
            },
        };
        let digest = hasher_finalize(self.hasher);
        Ok(Sealed { digest, packed })
    }
}

/// A blob made ready for storage.
pub struct PackedObject {
    /// The object's hash, 40 lowercase hexadecimal characters.
    pub id: String,
    /// The compressed encoding, as it stands in the stored file.
    pub packed: Vec<u8>,
}

/// The write side of one blob whose size is declared up front: the header
/// goes out first, then the content in as many parts as the caller has, and
/// the blob is sealed only if exactly the declared number of bytes came.
///
/// Every step consumes the writer and hands back the next one, so that a
/// writer that has failed cannot be used again.
pub struct BlobWriter {
    sink: HashWriter,
    size: u64,
    fed: u64,
    content: Ghost<Seq<u8>>,
}

impl BlobWriter {
    /// The size that the header declares.
    pub closed spec fn declared(&self) -> u64 {
        self.size
    }

    /// The content fed so far.
    pub closed spec fn content(&self) -> Seq<u8> {
        self.content@
    }

    /// A writer is always in order: header and content so far have been
    /// hashed and forwarded, and the content is within the declared size.
    #[verifier::type_invariant]
    spec fn wf(&self) -> bool {
        &&& self.sink.hashed() == header_bytes(Kind::Blob, self.size) + self.content@
        &&& self.sink.forwarded() == self.sink.hashed()
        &&& self.fed == self.content@.len()
        &&& self.fed <= self.size
    }

    /// Starts a blob of `size` bytes by writing its header. It fails only
    /// where the codec refused a write on the way through the header.
    pub fn begin(size: u64) -> (res: Result<BlobWriter, StoreError>)
        ensures
            match res {
                Ok(w) => w.declared() == size && w.content() == Seq::<u8>::empty(),
                Err(e) => {
                    &&& e == StoreError::IoFailure
                    &&& write_refused_on(header_bytes(Kind::Blob, size))
                },
            },
    {
        let header = ObjectHeader { kind: Kind::Blob, size };
        let head = header.encode();
        let mut sink = HashWriter::new();
        proof {
            assert(Seq::<u8>::empty() + head@ =~= head@);
        }
        match sink.write_all(head.as_slice()) {
            Ok(()) => {},
            Err(e) => {
                return Err(e);
            },
        }
        proof {
            assert(Seq::<u8>::empty() + head@ =~= head@ + Seq::<u8>::empty());
        }
        Ok(BlobWriter { sink, size, fed: 0, content: Ghost(Seq::empty()) })
    }

    /// Takes the next part of the content.
    ///
    /// A part that would carry the content past the declared size is refused
    /// with `LimitExceeded` before any of it is written. Otherwise it fails
    /// only where the codec refused a write on the way through header, content
    /// so far, and part. A writer that has failed is gone.
    pub fn feed(self, part: &[u8]) -> (res: Result<BlobWriter, StoreError>)
        ensures
            match res {
                Ok(w) => {
                    &&& w.declared() == self.declared()
                    &&& w.content() == self.content() + part@
                },
                Err(e) => if self.content().len() + part@.len() > self.declared() {
                    e == (StoreError::SizeMismatch {
                        expected: self.declared(),
                        fault: SizeFault::LimitExceeded,
                    })
                } else {
                    &&& e == StoreError::IoFailure
                    &&& write_refused_on(
                        header_bytes(Kind::Blob, self.declared()) + self.content() + part@,
                    )
                },
            },
    {
        proof {
            use_type_invariant(&self);
        }
        if part.len() as u64 > self.size - self.fed {
            return Err(
                StoreError::SizeMismatch { expected: self.size, fault: SizeFault::LimitExceeded },
            );
        }
        let mut sink = self.sink;
        match sink.write_all(part) {
            Ok(()) => {},
            Err(e) => {
                return Err(e);
            },
        }
        let ghost content = self.content@ + part@;
        proof {
            assert(header_bytes(Kind::Blob, self.size) + self.content@ + part@ =~= header_bytes(
                Kind::Blob,
                self.size,
            ) + content);
        }
        Ok(
            BlobWriter {
                sink,
                size: self.size,
                fed: self.fed + part.len() as u64,
                content: Ghost(content),
            },
        )
    }

    /// Seals the blob: ends the compressed stream and names the hash.
    ///
    /// Content that has stayed short of the declared size is refused with
    /// `ShortRead`. Otherwise the hash is that of the content's plain encoding
    /// and the packed bytes are an intact stream that decodes to it; or the
    /// codec, having taken all of the plain encoding, refused to finish.
    pub fn finish(self) -> (res: Result<PackedObject, StoreError>)
        ensures
            match res {
                Ok(object) => {
                    &&& self.content().len() == self.declared()
                    &&& object.id@ == object_id(self.content())
                    &&& is_object_hash(object.id@)
                    &&& inflated(object.packed@) == object_bytes(self.content())
                    &&& intact(object.packed@)
                },
                Err(e) => if self.content().len() < self.declared() {
                    e == (StoreError::SizeMismatch {
                        expected: self.declared(),
                        fault: SizeFault::ShortRead { actual: self.content().len() as u64 },
                    })
                } else {
                    &&& e == StoreError::IoFailure
                    &&& finish_refused_on(object_bytes(self.content()))
                },
            },
    {
        proof {
            use_type_invariant(&self);
        }
        if self.fed < self.size {
            return Err(
                StoreError::SizeMismatch {
                    expected: self.size,
                    fault: SizeFault::ShortRead { actual: self.fed },
                },
            );
        }
        let ghost last = self.sink.writer;
        let sealed = match self.sink.finish() {
            Ok(sealed) => sealed,
            Err(e) => {
                proof {
                    assert(finish_refused(last));
                    assert(accepted(last) == object_bytes(self.content@));
                }
                return Err(e);
            },
        };
        let id = hex_encode(sealed.digest.as_slice());
        proof {
            lemma_hex_of_digest_is_hash(sealed.digest@);
        }
        Ok(PackedObject { id, packed: sealed.packed })
    }
}

/// Encodes `content` as a blob: header and content stream through a
/// `HashWriter`, which hashes the plain bytes and compresses them.
///
/// On success the hash is that of the plain encoding, and the packed bytes
/// are an intact stream that decodes to the plain encoding. It fails only
/// where the codec refused a step on the way through the plain encoding.
pub fn write_blob(content: &[u8]) -> (res: Result<PackedObject, StoreError>)
    ensures
        match res {
            Ok(object) => {
                &&& object.id@ == object_id(content@)
                &&& is_object_hash(object.id@)
                &&& inflated(object.packed@) == object_bytes(content@)
                &&& intact(object.packed@)
            },
            Err(e) => e == StoreError::IoFailure && refused_on(object_bytes(content@)),
        },
{
    let ghost head = header_bytes(Kind::Blob, content@.len() as u64);
    let writer = match BlobWriter::begin(content.len() as u64) {
        Ok(writer) => writer,
        Err(e) => {
            proof {
                lemma_write_refused_on_longer(head, content@);
            }
            return Err(e);
        },
    };
    proof {
        assert(head + Seq::<u8>::empty() + content@ =~= head + content@);
    }
    let writer = match writer.feed(content) {
        Ok(writer) => writer,
        Err(e) => {
            return Err(e);
        },
    };
    proof {
        assert(Seq::<u8>::empty() + content@ =~= content@);
    }
    writer.finish()
}

} // verus!
