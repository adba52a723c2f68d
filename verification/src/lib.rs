//! A content-addressable object store.
//!
//! Content is framed as `"<kind> <size>\0" || content`, hashed with SHA-1 while
//! it streams into a zlib encoder, and later recovered by hash through a reader
//! that holds the stream to the size its header declares.
//!
//! The library computes; it never touches a file. Callers hand it bytes and
//! carry out the file operations that its plans describe.
//!
//! - `header`: the header codec.
//! - `hash`: digests and their hexadecimal text.
//! - `zlib`: the compression codec.
//! - `object`: the plain form of an object, and what holds of it.
//! - `writer`: the write path, a hashing writer over a compressing sink.
//! - `reader`: the read path, a size-bounded reader over a decompressing source.
//! - `store`: paths, and the steps of storing and fetching.
//! - `model`: what storing and fetching do to the files of a store.
//! - `error`: the failures.

pub mod error;
pub mod hash;
pub mod header;
pub mod model;
pub mod object;
pub mod reader;
pub mod store;
pub mod writer;
pub mod zlib;
