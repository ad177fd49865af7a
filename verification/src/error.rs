//! Errors produced while encoding, decoding and exchanging packets.

use vstd::prelude::*;

verus! {

/// Failures while reading values out of a received byte buffer.
#[derive(Debug, Clone, Copy, PartialEq, Eq, Structural)]
pub enum IoError {
    /// The buffer ended before the value was complete.
    UnexpectedEof,
    /// A string field did not hold valid UTF-8.
    InvalidUtf8,
    /// A size field held a negative number.
    NegativeSize(i32),
    /// A scan direction field held a number with no meaning.
    InvalidScanDir(u32),
    /// A line direction field held a number with no meaning.
    InvalidLineDir(u32),
    /// A scan movement field held a number with no meaning.
    InvalidScanMovementType(u16),
}

} // verus!

verus! {

/// Failures of the packet exchange that are not reading failures.
#[derive(Debug, PartialEq, Eq)]
#[allow(inconsistent_fields)]
pub enum CodecError {
    /// The reply names another command than the request.
    NameMismatch { expected: String, received: String },
    /// The reply body held more bytes than its response and footer.
    ReadLenMismatch { expected: usize, parsed: usize },
    /// The request did not fill the buffer sized for it.
    WriteLenMismatch { expected: usize, wrote: usize },
    /// A text does not fit a fixed-width field.
    StringTooLong { maximum: usize, string: String },
}

/// Any failure of a command exchange.
#[derive(Debug, PartialEq, Eq)]
pub enum NanonisTcpError {
    /// The received bytes could not be read.
    Io(IoError),
    /// The controller reported an error, with its description.
    Api(String),
    /// The packets did not fit together.
    Codec(CodecError),
}

/// The result of a command exchange.
pub type NanonisTcpResult<T> = Result<T, NanonisTcpError>;

} // verus!
