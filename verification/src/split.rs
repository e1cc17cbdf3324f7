//! The frame splitter: from a frame-count code and the payload of a packet
//! (the bytes behind the TOC byte) to the spans of its frames.
//!
//! All spans of this module are relative to the payload.

use crate::config::FrameCountCode;
use crate::error::DecodeError;
use crate::frame::spec_spans;
use crate::frame::Frame;
use crate::frame::Span;
use crate::layout::lemma_split_frames_layout;
use crate::length::lemma_frame_length_bounds;
use crate::length::lemma_padding_length_bounds;
use crate::length::read_frame_length;
use crate::length::read_padding_length;
use crate::length::spec_frame_length;
use crate::length::spec_padding_length;
use vstd::arithmetic::div_mod::lemma_fundamental_div_mod;
use vstd::prelude::*;
use vstd::slice::slice_subrange;

verus! {

/// `count` frames of `size` bytes each, one behind the other from `start`.
pub open spec fn spec_equal_frames(start: int, size: int, count: nat) -> Seq<Span> {
    Seq::new(count, |i: int| Span { offset: start + i * size, length: size })
}

/// Code 0: one frame that takes the whole payload.
pub open spec fn spec_single(data: Seq<u8>) -> Seq<Span> {
    seq![Span { offset: 0, length: data.len() as int }]
}

/// Code 1: two frames that take half of the payload each. A payload of odd
/// length has no such layout.
pub open spec fn spec_two_equal(data: Seq<u8>) -> Result<Seq<Span>, DecodeError> {
    if data.len() % 2 != 0 {
        Err(DecodeError::InvalidFrameLayout)
    } else {
        Ok(spec_equal_frames(0, data.len() as int / 2, 2))
    }
}

/// Code 2: the payload starts with the length of the first frame; the first
/// frame follows, and the second frame takes the rest. The payload is
/// truncated if it ends before the first frame does.
pub open spec fn spec_two_different(data: Seq<u8>) -> Result<Seq<Span>, DecodeError> {
    match spec_frame_length(data, 0) {
        Err(e) => Err(e),
        Ok((length, first)) => if length > data.len() - first {
            Err(DecodeError::TruncatedPacket)
        } else {
            Ok(
                seq![
                    Span { offset: first, length: length },
                    Span { offset: first + length, length: data.len() - first - length },
                ],
            )
        },
    }
}

/// The number of frames that the frame count byte of a code 3 payload
/// declares: its six low bits.
pub open spec fn spec_frame_count(descriptor: u8) -> int {
    descriptor as int % 64
}

/// Bit 6 of the frame count byte: the payload ends with padding.
pub open spec fn spec_has_padding(descriptor: u8) -> bool {
    (descriptor as int / 64) % 2 == 1
}

/// Bit 7 of the frame count byte: the frames have lengths of their own (VBR)
/// rather than one common length (CBR).
pub open spec fn spec_is_vbr(descriptor: u8) -> bool {
    descriptor >= 128
}

/// The padding of a code 3 payload: how many bytes at its end are padding,
/// and the position behind the frame count byte and the padding length.
///
/// Without the padding flag there is no padding. With it, the padding length
/// follows the frame count byte, and it must be smaller than the number of
/// bytes behind it.
pub open spec fn spec_padding(data: Seq<u8>) -> Result<(int, int), DecodeError>
    recommends
        data.len() > 0,
{
    if !spec_has_padding(data[0]) {
        Ok((0, 1))
    } else {
        match spec_padding_length(data, 1) {
            Err(e) => Err(e),
            Ok((padding, next)) => if padding >= data.len() - next {
                Err(DecodeError::PaddingOverrun)
            } else {
                Ok((padding, next))
            },
        }
    }
}

/// The sum of `lengths`.
pub open spec fn spec_sum(lengths: Seq<int>) -> int
    decreases lengths.len(),
{
    if lengths.len() == 0 {
        0
    } else {
        spec_sum(lengths.drop_last()) + lengths.last()
    }
}

/// Frames of the given lengths, one behind the other from `start`.
pub open spec fn spec_consecutive_frames(start: int, lengths: Seq<int>) -> Seq<Span> {
    Seq::new(
        lengths.len(),
        |i: int| Span { offset: start + spec_sum(lengths.take(i)), length: lengths[i] },
    )
}

/// The first `count` frame lengths of a VBR body, read one behind the other
/// from `start`, and the position behind the last of them.
///
/// It is an error if a length cannot be read, or if the lengths read so far
/// add up to more than the bytes that are left behind the length just read.
pub open spec fn spec_vbr_lengths(body: Seq<u8>, start: int, count: nat) -> Result<
    (Seq<int>, int),
    DecodeError,
>
    decreases count,
{
    if count == 0 {
        Ok((Seq::empty(), start))
    } else {
        match spec_vbr_lengths(body, start, (count - 1) as nat) {
            Err(e) => Err(e),
            Ok((lengths, pos)) => match spec_frame_length(body, pos) {
                Err(e) => Err(e),
                Ok((length, next)) => if spec_sum(lengths) + length > body.len() - next {
                    Err(DecodeError::LengthOverrun)
                } else {
                    Ok((lengths.push(length), next))
                },
            },
        }
    }
}

/// The frames of a VBR body, which is the payload without its padding. The
/// body holds, from `start`, the lengths of all frames but the last, then the
/// frames one behind the other. The last frame takes what is left.
pub open spec fn spec_vbr_frames(body: Seq<u8>, start: int, count: int) -> Result<
    Seq<Span>,
    DecodeError,
>
    recommends
        count >= 1,
{
    match spec_vbr_lengths(body, start, (count - 1) as nat) {
        Err(e) => Err(e),
        Ok((lengths, first)) => Ok(
            spec_consecutive_frames(first, lengths).push(
                Span {
                    offset: first + spec_sum(lengths),
                    length: body.len() - first - spec_sum(lengths),
                },
            ),
        ),
    }
}

/// The frames of a CBR payload: the bytes from `start` up to `end` divided
/// into `count` frames of one size. There is no such layout if `count` does
/// not divide the number of bytes.
pub open spec fn spec_cbr_frames(start: int, end: int, count: int) -> Result<
    Seq<Span>,
    DecodeError,
>
    recommends
        count >= 1,
        start <= end,
{
    if (end - start) % count != 0 {
        Err(DecodeError::InvalidFrameLayout)
    } else {
        Ok(spec_equal_frames(start, (end - start) / count, count as nat))
    }
}

/// Code 3: the payload starts with the frame count byte, which holds the
/// number of frames, the padding flag and the VBR flag. The number of frames
/// must not be zero. The padding, if any, is cut from the end of the payload
/// before the frames are laid out.
pub open spec fn spec_arbitrary(data: Seq<u8>) -> Result<Seq<Span>, DecodeError> {
    if data.len() == 0 {
        Err(DecodeError::TruncatedPacket)
    } else if spec_frame_count(data[0]) == 0 {
        Err(DecodeError::InvalidFrameCount)
    } else {
        match spec_padding(data) {
            Err(e) => Err(e),
            Ok((padding, start)) => if spec_is_vbr(data[0]) {
                spec_vbr_frames(data.take(data.len() - padding), start, spec_frame_count(data[0]))
            } else {
                spec_cbr_frames(start, data.len() - padding, spec_frame_count(data[0]))
            },
        }
    }
}

/// The frames of a payload under the given frame-count code.
pub open spec fn spec_split_frames(code: FrameCountCode, data: Seq<u8>) -> Result<
    Seq<Span>,
    DecodeError,
> {
    match code {
        FrameCountCode::Single => Ok(spec_single(data)),
        FrameCountCode::TwoEqual => spec_two_equal(data),
        FrameCountCode::TwoDifferent => spec_two_different(data),
        FrameCountCode::Arbitrary => spec_arbitrary(data),
    }
}

/// The sum of lengths that are not negative is not negative, and no prefix
/// adds up to more than the whole.
pub proof fn lemma_sum_of_prefix(lengths: Seq<int>, n: int)
    requires
        forall|i: int| 0 <= i < lengths.len() ==> lengths[i] >= 0,
        0 <= n <= lengths.len(),
    ensures
        0 <= spec_sum(lengths.take(n)) <= spec_sum(lengths),
    decreases lengths.len(),
{
    if n == lengths.len() {
        assert(lengths.take(n) =~= lengths);
        if n > 0 {
            lemma_sum_of_prefix(lengths.drop_last(), n - 1);
        }
    } else {
        lemma_sum_of_prefix(lengths.drop_last(), n);
        assert(lengths.drop_last().take(n) =~= lengths.take(n));
    }
}

/// The sum of a prefix grows by the element that the prefix grows by.
pub proof fn lemma_sum_of_next_prefix(lengths: Seq<int>, n: int)
    requires
        0 <= n < lengths.len(),
    ensures
        spec_sum(lengths.take(n + 1)) == spec_sum(lengths.take(n)) + lengths[n],
{
    assert(lengths.take(n + 1).drop_last() =~= lengths.take(n));
}

/// What holds of the frame lengths of a VBR body once they are read: there
/// are `count` of them, each between 0 and 1275, the position behind them
/// lies in the body, and the frames they declare fit behind it.
pub proof fn lemma_vbr_lengths_bounds(body: Seq<u8>, start: int, count: nat)
    requires
        0 <= start <= body.len(),
    ensures
        spec_vbr_lengths(body, start, count) matches Ok((lengths, first)) ==> {
            &&& lengths.len() == count
            &&& forall|i: int| 0 <= i < lengths.len() ==> 0 <= #[trigger] lengths[i] <= 1275
            &&& start <= first <= body.len()
            &&& 0 <= spec_sum(lengths) <= body.len() - first
        },
    decreases count,
{
    if count > 0 {
        lemma_vbr_lengths_bounds(body, start, (count - 1) as nat);
        if let Ok((lengths, pos)) = spec_vbr_lengths(body, start, (count - 1) as nat) {
            lemma_frame_length_bounds(body, pos);
            if let Ok((length, next)) = spec_frame_length(body, pos) {
                assert(lengths.push(length).drop_last() =~= lengths);
            }
        }
    }
}

/// Once reading the frame lengths of a VBR body has failed, reading more of
/// them fails in the same way.
pub proof fn lemma_vbr_error_persists(body: Seq<u8>, start: int, failed: nat, count: nat)
    requires
        failed <= count,
        spec_vbr_lengths(body, start, failed) is Err,
    ensures
        spec_vbr_lengths(body, start, count) == spec_vbr_lengths(body, start, failed),
    decreases count,
{
    if failed < count {
        lemma_vbr_error_persists(body, start, failed, (count - 1) as nat);
    }
}

/// Splits a code 0 payload.
fn split_single(data: &[u8]) -> (frames: Vec<Frame>)
    ensures
        spec_spans(frames@) == spec_single(data@),
{
    let frames: Vec<Frame> = vec![Frame { offset: 0, length: data.len() }];
    frames
}

/// Splits a code 1 payload.
fn split_two_equal(data: &[u8]) -> (r: Result<Vec<Frame>, DecodeError>)
    ensures
        match r {
            Ok(frames) => spec_two_equal(data@) == Ok::<Seq<Span>, DecodeError>(
                spec_spans(frames@),
            ),
            Err(e) => spec_two_equal(data@) == Err::<Seq<Span>, DecodeError>(e),
        },
{
    let len: usize = data.len();
    if len % 2 != 0 {
        return Err(DecodeError::InvalidFrameLayout);
    }
    let half: usize = len / 2;
    let frames: Vec<Frame> = vec![
        Frame { offset: 0, length: half },
        Frame { offset: half, length: half },
    ];
    proof {
        let spans = spec_equal_frames(0, half as int, 2);
        assert(spans[1] == frames@[1]@);
        assert(spec_spans(frames@) =~= spans);
    }
    Ok(frames)
}

/// Splits a code 2 payload.
fn split_two_different(data: &[u8]) -> (r: Result<Vec<Frame>, DecodeError>)
    ensures
        match r {
            Ok(frames) => spec_two_different(data@) == Ok::<Seq<Span>, DecodeError>(
                spec_spans(frames@),
            ),
            Err(e) => spec_two_different(data@) == Err::<Seq<Span>, DecodeError>(e),
        },
{
    let len: usize = data.len();
    let (length, first) = match read_frame_length(data, 0) {
        Ok(prefix) => prefix,
        Err(e) => {
            return Err(e);
        },
    };
    if length > len - first {
        return Err(DecodeError::TruncatedPacket);
    }
    let second: usize = first + length;
    let rest: usize = len - second;
    let frames: Vec<Frame> = vec![
        Frame { offset: first, length: length },
        Frame { offset: second, length: rest },
    ];
    assert(spec_spans(frames@) =~= spec_two_different(data@)->Ok_0);
    Ok(frames)
}

/// Lays out the frames of a CBR payload between `start` and `end`.
fn split_cbr(start: usize, end: usize, count: u8) -> (r: Result<Vec<Frame>, DecodeError>)
    requires
        start <= end,
        count >= 1,
    ensures
        match r {
            Ok(frames) => spec_cbr_frames(start as int, end as int, count as int) == Ok::<
                Seq<Span>,
                DecodeError,
            >(spec_spans(frames@)),
            Err(e) => spec_cbr_frames(start as int, end as int, count as int) == Err::<
                Seq<Span>,
                DecodeError,
            >(e),
        },
{
    let room: usize = end - start;
    if room % (count as usize) != 0 {
        return Err(DecodeError::InvalidFrameLayout);
    }
    let size: usize = room / (count as usize);
    proof {
        lemma_fundamental_div_mod(room as int, count as int);
    }
    let mut frames: Vec<Frame> = Vec::new();
    let mut offset: usize = start;
    let mut i: u8 = 0;
    while i < count
        invariant
            i <= count,
            start <= end,
            room == end - start,
            room == count * size,
            offset == start + i * size,
            frames@.len() == i,
            forall|k: int|
                0 <= k < i ==> (#[trigger] frames@[k])@ == (Span {
                    offset: start + k * size,
                    length: size as int,
                }),
        decreases count - i,
    {
        proof {
            assert((i + 1) * size == i * size + size) by (nonlinear_arith);
            assert((i + 1) * size <= count * size) by (nonlinear_arith)
                requires
                    i + 1 <= count,
            ;
        }
        frames.push(Frame { offset: offset, length: size });
        offset = offset + size;
        i = i + 1;
    }
    assert(spec_spans(frames@) =~= spec_equal_frames(start as int, size as int, count as nat));
    Ok(frames)
}

/// Reads the frame lengths of a VBR body and lays out its frames.
fn split_vbr(body: &[u8], start: usize, count: u8) -> (r: Result<Vec<Frame>, DecodeError>)
    requires
        start <= body@.len(),
        count >= 1,
    ensures
        match r {
            Ok(frames) => spec_vbr_frames(body@, start as int, count as int) == Ok::<
                Seq<Span>,
                DecodeError,
            >(spec_spans(frames@)),
            Err(e) => spec_vbr_frames(body@, start as int, count as int) == Err::<
                Seq<Span>,
                DecodeError,
            >(e),
        },
{
    let len: usize = body.len();
    let mut lengths: Vec<usize> = Vec::new();
    let ghost mut declared: Seq<int> = Seq::empty();
    let mut pos: usize = start;
    let mut total: usize = 0;
    let mut i: u8 = 1;
    while i < count
        invariant
            1 <= i <= count,
            len == body@.len(),
            start <= len,
            spec_vbr_lengths(body@, start as int, (i - 1) as nat) == Ok::<
                (Seq<int>, int),
                DecodeError,
            >((declared, pos as int)),
            declared.len() == lengths@.len(),
            forall|k: int| 0 <= k < declared.len() ==> declared[k] == lengths@[k],
            total == spec_sum(declared),
            pos <= len,
            total <= len - pos,
        decreases count - i,
    {
        let (length, next) = match read_frame_length(body, pos) {
            Ok(prefix) => prefix,
            Err(e) => {
                proof {
                    lemma_vbr_error_persists(body@, start as int, i as nat, (count - 1) as nat);
                }
                return Err(e);
            },
        };
        proof {
            lemma_frame_length_bounds(body@, pos as int);
        }
        if length > len - next || total > len - next - length {
            proof {
                lemma_vbr_error_persists(body@, start as int, i as nat, (count - 1) as nat);
            }
            return Err(DecodeError::LengthOverrun);
        }
        lengths.push(length);
        proof {
            assert(declared.push(length as int).drop_last() =~= declared);
            declared = declared.push(length as int);
        }
        total = total + length;
        pos = next;
        i = i + 1;
    }
    proof {
        lemma_vbr_lengths_bounds(body@, start as int, (count - 1) as nat);
    }
    let mut frames: Vec<Frame> = Vec::new();
    let mut offset: usize = pos;
    let mut k: usize = 0;
    while k < lengths.len()
        invariant
            k <= lengths@.len(),
            declared.len() == lengths@.len(),
            forall|j: int| 0 <= j < declared.len() ==> declared[j] == lengths@[j],
            forall|j: int| 0 <= j < declared.len() ==> declared[j] >= 0,
            pos + spec_sum(declared) <= len,
            offset == pos + spec_sum(declared.take(k as int)),
            frames@.len() == k,
            forall|j: int|
                0 <= j < k ==> (#[trigger] frames@[j])@ == spec_consecutive_frames(
                    pos as int,
                    declared,
                )[j],
        decreases lengths@.len() - k,
    {
        proof {
            lemma_sum_of_next_prefix(declared, k as int);
            lemma_sum_of_prefix(declared, k + 1);
        }
        let length: usize = lengths[k];
        frames.push(Frame { offset: offset, length: length });
        offset = offset + length;
        k = k + 1;
    }
    proof {
        assert(declared.take(k as int) =~= declared);
    }
    frames.push(Frame { offset: offset, length: len - offset });
    proof {
        let spans = spec_vbr_frames(body@, start as int, count as int)->Ok_0;
        assert(spec_spans(frames@) =~= spans);
    }
    Ok(frames)
}

/// Splits a code 3 payload.
fn split_arbitrary(data: &[u8]) -> (r: Result<Vec<Frame>, DecodeError>)
    ensures
        match r {
            Ok(frames) => spec_arbitrary(data@) == Ok::<Seq<Span>, DecodeError>(
                spec_spans(frames@),
            ),
            Err(e) => spec_arbitrary(data@) == Err::<Seq<Span>, DecodeError>(e),
        },
{
    let len: usize = data.len();
    if len == 0 {
        return Err(DecodeError::TruncatedPacket);
    }
    let descriptor: u8 = data[0];
    let count: u8 = descriptor & 0b0011_1111;
    let padded: bool = descriptor & 0b0100_0000 != 0;
    let vbr: bool = descriptor & 0b1000_0000 != 0;
    proof {
        assert(descriptor & 0b0011_1111 == descriptor % 64) by (bit_vector);
        assert((descriptor & 0b0100_0000 != 0) <==> (descriptor / 64) % 2 == 1) by (bit_vector);
        assert((descriptor & 0b1000_0000 != 0) <==> descriptor >= 128) by (bit_vector);
    }
    if count == 0 {
        return Err(DecodeError::InvalidFrameCount);
    }
    let mut start: usize = 1;
    let mut end: usize = len;
    if padded {
        let (padding, next) = match read_padding_length(data, 1) {
            Ok(run) => run,
            Err(e) => {
                return Err(e);
            },
        };
        proof {
            lemma_padding_length_bounds(data@, 1);
        }
        if padding >= (len - next) as u128 {
            return Err(DecodeError::PaddingOverrun);
        }
        start = next;
        end = len - padding as usize;
    }
    if vbr {
        split_vbr(slice_subrange(data, 0, end), start, count)
    } else {
        split_cbr(start, end, count)
    }
}

/// Splits the payload of a packet, the bytes behind its TOC byte, into
/// frames as the frame-count code of the packet prescribes. The frames are
/// spans of `data`.
pub fn split_frames(code: FrameCountCode, data: &[u8]) -> (r: Result<Vec<Frame>, DecodeError>)
    ensures
        match r {
            Ok(frames) => spec_split_frames(code, data@) == Ok::<Seq<Span>, DecodeError>(
                spec_spans(frames@),
            ),
            Err(e) => spec_split_frames(code, data@) == Err::<Seq<Span>, DecodeError>(e),
        },
        r matches Ok(frames) ==> frames@.len() >= 1 && forall|i: int|
            0 <= i < frames@.len() ==> (#[trigger] frames@[i])@.within(data@.len() as int),
{
    proof {
        if spec_split_frames(code, data@) is Ok {
            lemma_split_frames_layout(code, data@);
        }
    }
    let r = match code {
        FrameCountCode::Single => Ok(split_single(data)),
        FrameCountCode::TwoEqual => split_two_equal(data),
        FrameCountCode::TwoDifferent => split_two_different(data),
        FrameCountCode::Arbitrary => split_arbitrary(data),
    };
    proof {
        if r is Ok {
            let frames = r->Ok_0;
            assert forall|i: int| 0 <= i < frames@.len() implies (#[trigger] frames@[i])@.within(
                data@.len() as int,
            ) by {
                assert(spec_spans(frames@)[i] == frames@[i]@);
            }
        }
    }
    r
}

} // verus!
