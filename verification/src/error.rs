//! The ways in which storing or fetching an object can fail.

use vstd::prelude::*;

verus! {

/// What is wrong with a header that could not be parsed.
#[derive(Clone, Copy, Debug, PartialEq, Eq, Structural)]
pub enum Malformed {
    /// No NUL terminator within the header window.
    TruncatedHeader,
    /// A terminator, but no space between kind and size before it.
    MissingSeparator,
    /// The size field is empty, holds a non-digit, or does not fit in 64 bits.
    BadSize,
}

/// How the decompressed content disagrees with the size its header declares.
#[derive(Clone, Copy, Debug, PartialEq, Eq, Structural)]
pub enum SizeFault {
    /// The stream ended after `actual` bytes of content, fewer than declared.
    ShortRead { actual: u64 },
    /// A single read produced more bytes than the declared size still allowed.
    LimitExceeded,
    /// The declared number of bytes had been produced and the stream went on.
    TrailingData,
}

/// Every failure of the store. Each is terminal for the operation that met it.
#[derive(Clone, Copy, Debug, PartialEq, Eq, Structural)]
pub enum StoreError {
    /// The hash argument is not 40 hexadecimal characters.
    InvalidInput,
    /// No object is stored under the hash.
    NotFound,
    /// The object's header cannot be parsed.
    Corrupt(Malformed),
    /// The header names a kind that this store does not define.
    UnsupportedKind,
    /// The content is shorter or longer than the `expected` size that the
    /// header declares.
    SizeMismatch { expected: u64, fault: SizeFault },
    /// The file system or the compression codec reported a failure.
    IoFailure,
}

impl StoreError {
    /// Whether this error reports content that runs past the declared size
    /// `expected`.
    pub open spec fn is_overrun(self, expected: u64) -> bool {
        self == (StoreError::SizeMismatch { expected, fault: SizeFault::LimitExceeded })
            || self == (StoreError::SizeMismatch { expected, fault: SizeFault::TrailingData })
    }
}

} // verus!
