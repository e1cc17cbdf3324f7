//! Frames: byte spans inside a packet buffer.

use vstd::prelude::*;
use vstd::slice::slice_subrange;

verus! {

/// The mathematical value of a [`Frame`]: where it starts in the buffer and
/// how many bytes it takes.
pub struct Span {
    pub offset: int,
    pub length: int,
}

impl Span {
    /// The index just behind the last byte of the span.
    pub open spec fn end(self) -> int {
        self.offset + self.length
    }

    /// The span lies inside a buffer of `len` bytes.
    pub open spec fn within(self, len: int) -> bool {
        0 <= self.offset && 0 <= self.length && self.end() <= len
    }

    /// The bytes of `data` that the span covers.
    pub open spec fn bytes(self, data: Seq<u8>) -> Seq<u8>
        recommends
            self.within(data.len() as int),
    {
        data.subrange(self.offset, self.end())
    }

    /// The same span seen from a buffer that has `by` more bytes in front.
    pub open spec fn shifted(self, by: int) -> Span {
        Span { offset: self.offset + by, length: self.length }
    }
}

/// One frame of a packet: a span of the buffer it was decoded from. A frame
/// borrows nothing and copies nothing; it is only meaningful together with
/// that buffer.
#[derive(Debug, Clone, Copy, PartialEq, Eq, Structural)]
pub struct Frame {
    /// Index of the first byte of the frame.
    pub offset: usize,
    /// Number of bytes of the frame.
    pub length: usize,
}

impl View for Frame {
    type V = Span;

    open spec fn view(&self) -> Span {
        Span { offset: self.offset as int, length: self.length as int }
    }
}

/// The spans of a list of frames, in order.
pub open spec fn spec_spans(frames: Seq<Frame>) -> Seq<Span> {
    Seq::new(frames.len(), |i: int| frames[i]@)
}

impl Frame {
    /// The bytes of the frame inside `data`, the buffer it was decoded from;
    /// `None` if the frame does not lie inside `data`.
    pub fn bytes<'a>(&self, data: &'a [u8]) -> (r: Option<&'a [u8]>)
        ensures
            r is Some <==> self@.within(data@.len() as int),
            r matches Some(b) ==> b@ == self@.bytes(data@),
    {
        let len: usize = data.len();
        if self.offset <= len && self.length <= len - self.offset {
            Some(slice_subrange(data, self.offset, self.offset + self.length))
        } else {
            None
        }
    }
}

} // verus!
