//! What holds of the frames of every payload that can be split: they lie one
//! behind the other, inside the payload, and fill the bytes between the header
//! and the padding exactly.

use crate::config::FrameCountCode;
use crate::error::DecodeError;
use crate::frame::Span;
use crate::length::lemma_frame_length_bounds;
use crate::length::lemma_padding_length_bounds;
use crate::length::spec_frame_length;
use crate::length::spec_padding_length;
use crate::split::lemma_sum_of_next_prefix;
use crate::split::lemma_vbr_lengths_bounds;
use crate::split::spec_arbitrary;
use crate::split::spec_consecutive_frames;
use crate::split::spec_equal_frames;
use crate::split::spec_frame_count;
use crate::split::spec_has_padding;
use crate::split::spec_is_vbr;
use crate::split::spec_padding;
use crate::split::spec_single;
use crate::split::spec_split_frames;
use crate::split::spec_sum;
use crate::split::spec_two_different;
use crate::split::spec_two_equal;
use crate::split::spec_vbr_lengths;
use vstd::arithmetic::div_mod::lemma_fundamental_div_mod;
use vstd::prelude::*;

verus! {

/// The spans lie one behind the other and fill the bytes from `start` up to
/// `end`: the first starts at `start`, each of the others starts where the
/// one before it ends, and the last ends at `end`.
pub open spec fn spec_fills(spans: Seq<Span>, start: int, end: int) -> bool {
    &&& spans.len() >= 1
    &&& spans[0].offset == start
    &&& spans.last().end() == end
    &&& forall|i: int| 0 <= i < spans.len() ==> (#[trigger] spans[i]).length >= 0
    &&& forall|i: int, j: int|
        0 <= i && j == i + 1 && j < spans.len() ==> (#[trigger] spans[j]).offset == (
        #[trigger] spans[i]).end()
}

/// All spans have the same length.
pub open spec fn spec_same_length(spans: Seq<Span>) -> bool {
    forall|i: int, j: int|
        0 <= i < spans.len() && 0 <= j < spans.len() ==> (#[trigger] spans[i]).length == (
        #[trigger] spans[j]).length
}

/// Where the frames of a payload start and end: behind the header (the
/// frame length of code 2; the frame count byte, the padding length and the
/// frame lengths of code 3) and in front of the padding.
pub open spec fn spec_frame_region(code: FrameCountCode, data: Seq<u8>) -> (int, int) {
    match code {
        FrameCountCode::Single => (0, data.len() as int),
        FrameCountCode::TwoEqual => (0, data.len() as int),
        FrameCountCode::TwoDifferent => (spec_frame_length(data, 0)->Ok_0.1, data.len() as int),
        FrameCountCode::Arbitrary => {
            let (padding, start) = spec_padding(data)->Ok_0;
            let end = data.len() - padding;
            if spec_is_vbr(data[0]) {
                (
                    spec_vbr_lengths(
                        data.take(end),
                        start,
                        (spec_frame_count(data[0]) - 1) as nat,
                    )->Ok_0.1,
                    end,
                )
            } else {
                (start, end)
            }
        },
    }
}

/// How many frames a payload has, if it can be split: one, two, or as many
/// as its frame count byte says.
pub open spec fn spec_number_of_frames(code: FrameCountCode, data: Seq<u8>) -> int {
    match code {
        FrameCountCode::Single => 1,
        FrameCountCode::TwoEqual => 2,
        FrameCountCode::TwoDifferent => 2,
        FrameCountCode::Arbitrary => spec_frame_count(data[0]),
    }
}

/// Spans that fill the bytes from `start` to `end` lie between `start` and
/// `end`, each of them.
pub proof fn lemma_fills_within(spans: Seq<Span>, start: int, end: int)
    requires
        spec_fills(spans, start, end),
    ensures
        start <= end,
        forall|i: int|
            0 <= i < spans.len() ==> start <= (#[trigger] spans[i]).offset && spans[i].end() <= end,
{
    assert forall|i: int| 0 <= i < spans.len() implies start <= (#[trigger] spans[i]).offset
        && spans[i].end() <= end by {
        lemma_fills_from_start(spans, start, end, i);
        lemma_fills_to_end(spans, start, end, i);
    }
}

proof fn lemma_fills_from_start(spans: Seq<Span>, start: int, end: int, i: int)
    requires
        spec_fills(spans, start, end),
        0 <= i < spans.len(),
    ensures
        start <= spans[i].offset,
    decreases i,
{
    if i > 0 {
        lemma_fills_from_start(spans, start, end, i - 1);
    }
}

proof fn lemma_fills_to_end(spans: Seq<Span>, start: int, end: int, i: int)
    requires
        spec_fills(spans, start, end),
        0 <= i < spans.len(),
    ensures
        spans[i].end() <= end,
    decreases spans.len() - i,
{
    if i < spans.len() - 1 {
        lemma_fills_to_end(spans, start, end, i + 1);
    }
}

/// Frames of one size fill the bytes they are laid over, and have the same
/// length.
pub proof fn lemma_equal_frames_fill(start: int, size: int, count: nat)
    requires
        size >= 0,
        count >= 1,
    ensures
        spec_fills(spec_equal_frames(start, size, count), start, start + count * size),
        spec_same_length(spec_equal_frames(start, size, count)),
        spec_equal_frames(start, size, count).len() == count,
{
    let spans = spec_equal_frames(start, size, count);
    assert(start + (count - 1) * size + size == start + count * size) by (nonlinear_arith);
    assert forall|i: int, j: int| 0 <= i && j == i + 1 && j < spans.len() implies (
    #[trigger] spans[j]).offset == (#[trigger] spans[i]).end() by {
        assert((i + 1) * size == i * size + size) by (nonlinear_arith);
    }
}

/// Frames of given lengths, none of them negative, followed by one more frame
/// fill the bytes they are laid over.
pub proof fn lemma_consecutive_frames_fill(start: int, lengths: Seq<int>, end: int)
    requires
        forall|i: int| 0 <= i < lengths.len() ==> lengths[i] >= 0,
        start + spec_sum(lengths) <= end,
    ensures
        spec_fills(
            spec_consecutive_frames(start, lengths).push(
                Span { offset: start + spec_sum(lengths), length: end - start - spec_sum(lengths) },
            ),
            start,
            end,
        ),
{
    let last = Span { offset: start + spec_sum(lengths), length: end - start - spec_sum(lengths) };
    let spans = spec_consecutive_frames(start, lengths).push(last);
    assert forall|i: int, j: int| 0 <= i && j == i + 1 && j < spans.len() implies (
    #[trigger] spans[j]).offset == (#[trigger] spans[i]).end() by {
        lemma_sum_of_next_prefix(lengths, i);
    }
}

/// A code 0 payload is one frame that fills it.
pub proof fn lemma_single_fills(data: Seq<u8>)
    ensures
        spec_split_frames(FrameCountCode::Single, data) == Ok::<Seq<Span>, DecodeError>(
            seq![Span { offset: 0, length: data.len() as int }],
        ),
        spec_fills(spec_single(data), 0, data.len() as int),
{
}

/// A code 1 payload can be split exactly if its length is even.
pub proof fn lemma_two_equal_iff_even(data: Seq<u8>)
    ensures
        spec_two_equal(data) is Ok <==> data.len() % 2 == 0,
        spec_two_equal(data) is Err ==> spec_two_equal(data) == Err::<Seq<Span>, DecodeError>(
            DecodeError::InvalidFrameLayout,
        ),
{
}

/// A code 2 payload whose first byte `n` is at most 251, followed by at least
/// `n` bytes, has a first frame of the `n` bytes behind the first byte and a
/// second frame of all the bytes behind those.
pub proof fn lemma_two_different_short_length(data: Seq<u8>)
    requires
        data.len() >= 1,
        data[0] <= 251,
        data.len() >= 1 + data[0],
    ensures
        spec_two_different(data) == Ok::<Seq<Span>, DecodeError>(
            seq![
                Span { offset: 1, length: data[0] as int },
                Span { offset: 1 + data[0], length: data.len() - 1 - data[0] },
            ],
        ),
{
}

/// A code 2 payload whose first byte `b0` is above 251, followed by a byte
/// `b1` and at least `b0 + 4 * b1` more bytes, has a first frame of that
/// length behind the two bytes.
pub proof fn lemma_two_different_long_length(data: Seq<u8>)
    requires
        data.len() >= 2,
        data[0] > 251,
        data.len() >= 2 + data[0] + 4 * data[1],
    ensures
        spec_two_different(data) == Ok::<Seq<Span>, DecodeError>(
            seq![
                Span { offset: 2, length: data[0] + 4 * data[1] },
                Span {
                    offset: 2 + data[0] + 4 * data[1],
                    length: data.len() - 2 - data[0] - 4 * data[1],
                },
            ],
        ),
{
}

/// A code 3 payload whose padding is at least as long as the bytes behind the
/// padding length cannot be split: the padding overruns it.
pub proof fn lemma_padding_overrun(data: Seq<u8>, padding: int, next: int)
    requires
        data.len() >= 1,
        spec_frame_count(data[0]) != 0,
        spec_has_padding(data[0]),
        spec_padding_length(data, 1) == Ok::<(int, int), DecodeError>(
            (padding, next),
        ),
        padding >= data.len() - next,
    ensures
        spec_arbitrary(data) == Err::<Seq<Span>, DecodeError>(DecodeError::PaddingOverrun),
{
}

/// The frames of a payload that can be split: there are as many as the code
/// says, they fill the bytes between the header and the padding, and so they
/// lie one behind the other inside the payload. The frames of a code 1
/// payload and of a code 3 CBR payload have the same length.
pub proof fn lemma_split_frames_layout(code: FrameCountCode, data: Seq<u8>)
    requires
        spec_split_frames(code, data) is Ok,
    ensures
        ({
            let spans = spec_split_frames(code, data)->Ok_0;
            let (start, end) = spec_frame_region(code, data);
            &&& spans.len() == spec_number_of_frames(code, data)
            &&& 0 <= start <= end <= data.len()
            &&& spec_fills(spans, start, end)
            &&& forall|i: int| 0 <= i < spans.len() ==> (#[trigger] spans[i]).within(data.len() as int)
            &&& code == FrameCountCode::TwoEqual || (code == FrameCountCode::Arbitrary
                && !spec_is_vbr(data[0])) ==> spec_same_length(spans)
        }),
{
    let spans = spec_split_frames(code, data)->Ok_0;
    let (start, end) = spec_frame_region(code, data);
    match code {
        FrameCountCode::Single => {},
        FrameCountCode::TwoEqual => {
            lemma_equal_frames_fill(0, data.len() as int / 2, 2);
        },
        FrameCountCode::TwoDifferent => {
            lemma_frame_length_bounds(data, 0);
        },
        FrameCountCode::Arbitrary => {
            let count = spec_frame_count(data[0]);
            let (padding, first) = spec_padding(data)->Ok_0;
            lemma_padding_length_bounds(data, 1);
            let body = data.take(end);
            if spec_is_vbr(data[0]) {
                lemma_vbr_lengths_bounds(body, first, (count - 1) as nat);
                let (lengths, _) = spec_vbr_lengths(body, first, (count - 1) as nat)->Ok_0;
                lemma_consecutive_frames_fill(start, lengths, end);
            } else {
                let size = (end - first) / count;
                lemma_fundamental_div_mod(end - first, count);
                assert(size >= 0) by (nonlinear_arith)
                    requires
                        count >= 1,
                        end - first >= 0,
                        end - first == count * size,
                ;
                lemma_equal_frames_fill(first, size, count as nat);
            }
        },
    }
    lemma_fills_within(spans, start, end);
}

} // verus!
