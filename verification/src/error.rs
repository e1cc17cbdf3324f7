//! The ways in which decoding a packet can fail.

use vstd::prelude::*;

verus! {

/// Why a packet could not be decoded. Every failure is reported as a value;
/// no function of this crate panics on malformed input.
#[derive(Debug, Clone, Copy, PartialEq, Eq, Structural)]
pub enum DecodeError {
    /// The buffer ends before the TOC byte, a frame-count byte, a length
    /// prefix, a continuation byte or the frame data that a length declares.
    TruncatedPacket,
    /// An arbitrary-count packet declares zero frames.
    InvalidFrameCount,
    /// The payload cannot be divided into frames of equal size.
    InvalidFrameLayout,
    /// The declared padding is at least as long as the bytes that follow it.
    PaddingOverrun,
    /// The declared frame lengths add up to more bytes than are available.
    LengthOverrun,
}

} // verus!
