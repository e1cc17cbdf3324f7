//! The two variable-length encodings of the packet header: the one- or
//! two-byte frame length and the run-length padding length.

use crate::error::DecodeError;
use vstd::prelude::*;

verus! {

/// The largest frame length that a single byte encodes. A first byte above it
/// announces a second byte.
pub const MAX_ONE_BYTE_LENGTH: u8 = 251;

/// The largest frame length that the encoding can express: 255 + 4 * 255.
pub const MAX_FRAME_LENGTH: usize = 1275;

/// The padding byte that announces another padding byte.
pub const PADDING_CONTINUES: u8 = 255;

/// What a continuing padding byte adds to the padding length.
pub const PADDING_CONTINUATION_VALUE: u8 = 254;

/// The frame length encoded at `pos` in `data`, with the position of the
/// byte behind it.
///
/// A first byte `b0` up to 251 is the length itself. A larger `b0` is
/// followed by a second byte `b1`, and the length is `b0 + 4 * b1`. It is an
/// error if a byte that is needed lies outside `data`.
pub open spec fn spec_frame_length(data: Seq<u8>, pos: int) -> Result<(int, int), DecodeError> {
    if pos < 0 || pos >= data.len() {
        Err(DecodeError::TruncatedPacket)
    } else if data[pos] <= MAX_ONE_BYTE_LENGTH {
        Ok((data[pos] as int, pos + 1))
    } else if pos + 1 >= data.len() {
        Err(DecodeError::TruncatedPacket)
    } else {
        Ok((data[pos] + 4 * data[pos + 1], pos + 2))
    }
}

/// The padding length encoded at `pos` in `data`, with the position of the
/// byte behind it.
///
/// Each byte 255 adds 254 to the length and is followed by another byte; the
/// first byte below 255 adds its own value and ends the run. It is an error if
/// `data` ends before the run does.
pub open spec fn spec_padding_length(data: Seq<u8>, pos: int) -> Result<(int, int), DecodeError>
    decreases data.len() - pos,
{
    if pos < 0 || pos >= data.len() {
        Err(DecodeError::TruncatedPacket)
    } else if data[pos] == PADDING_CONTINUES {
        match spec_padding_length(data, pos + 1) {
            Ok((length, next)) => Ok((length + PADDING_CONTINUATION_VALUE, next)),
            Err(e) => Err(e),
        }
    } else {
        Ok((data[pos] as int, pos + 1))
    }
}

/// Every byte of `data` from `from` up to `to` continues a padding run.
pub open spec fn spec_all_continue(data: Seq<u8>, from: int, to: int) -> bool {
    forall|i: int| from <= i < to ==> data[i] == PADDING_CONTINUES
}

/// A decoded frame length is at most 1275 and takes one or two bytes.
pub proof fn lemma_frame_length_bounds(data: Seq<u8>, pos: int)
    ensures
        spec_frame_length(data, pos) matches Ok((length, next)) ==> 0 <= length <= MAX_FRAME_LENGTH
            && pos < next <= pos + 2 && next <= data.len() && (next == pos + 1 <==> length
            <= MAX_ONE_BYTE_LENGTH),
{
}

/// A padding run of `count` continuing bytes followed by a byte below 255
/// declares `254 * count` bytes plus the value of that last byte, and ends
/// behind it.
pub proof fn lemma_padding_run_terminated(data: Seq<u8>, pos: int, count: nat)
    requires
        0 <= pos,
        pos + count < data.len(),
        spec_all_continue(data, pos, pos + count),
        data[pos + count] != PADDING_CONTINUES,
    ensures
        spec_padding_length(data, pos) == Ok::<(int, int), DecodeError>(
            (PADDING_CONTINUATION_VALUE * count + data[pos + count], pos + count + 1),
        ),
    decreases count,
{
    if count > 0 {
        lemma_padding_run_terminated(data, pos + 1, (count - 1) as nat);
    }
}

/// A padding run that continues up to the end of the buffer is truncated.
pub proof fn lemma_padding_run_truncated(data: Seq<u8>, pos: int)
    requires
        0 <= pos,
        spec_all_continue(data, pos, data.len() as int),
    ensures
        spec_padding_length(data, pos) == Err::<(int, int), DecodeError>(
            DecodeError::TruncatedPacket,
        ),
    decreases data.len() - pos,
{
    if pos < data.len() {
        lemma_padding_run_truncated(data, pos + 1);
    }
}

/// A decoded padding length is not negative, and its run has at least one
/// byte and ends inside the buffer.
pub proof fn lemma_padding_length_bounds(data: Seq<u8>, pos: int)
    ensures
        spec_padding_length(data, pos) matches Ok((length, next)) ==> 0 <= length
            <= PADDING_CONTINUATION_VALUE * (next - pos) && pos < next <= data.len(),
    decreases data.len() - pos,
{
    if 0 <= pos < data.len() && data[pos] == PADDING_CONTINUES {
        lemma_padding_length_bounds(data, pos + 1);
    }
}

/// Reads the frame length encoded at `pos` in `data`. Returns the length and
/// the position of the byte behind the encoding.
pub fn read_frame_length(data: &[u8], pos: usize) -> (r: Result<(usize, usize), DecodeError>)
    ensures
        match r {
            Ok((length, next)) => spec_frame_length(data@, pos as int) == Ok::<
                (int, int),
                DecodeError,
            >((length as int, next as int)),
            Err(e) => spec_frame_length(data@, pos as int) == Err::<(int, int), DecodeError>(e),
        },
{
    let len: usize = data.len();
    if pos >= len {
        return Err(DecodeError::TruncatedPacket);
    }
    let first: u8 = data[pos];
    if first <= MAX_ONE_BYTE_LENGTH {
        return Ok((first as usize, pos + 1));
    }
    if pos + 1 >= len {
        return Err(DecodeError::TruncatedPacket);
    }
    let second: u8 = data[pos + 1];
    Ok((first as usize + 4 * (second as usize), pos + 2))
}

/// Reads the padding length encoded at `pos` in `data`. Returns the length
/// and the position of the byte behind the encoding.
///
/// The length is a `u128`: a run of `n` bytes declares up to `254 * n` bytes
/// of padding, which for a long run is more than a `usize` holds.
pub fn read_padding_length(data: &[u8], pos: usize) -> (r: Result<(u128, usize), DecodeError>)
    ensures
        match r {
            Ok((length, next)) => spec_padding_length(data@, pos as int) == Ok::<
                (int, int),
                DecodeError,
            >((length as int, next as int)),
            Err(e) => spec_padding_length(data@, pos as int) == Err::<(int, int), DecodeError>(e),
        },
{
    let len: usize = data.len();
    let mut total: u128 = 0;
    let mut at: usize = pos;
    while at < len
        invariant
            len == data@.len(),
            pos <= at,
            pos < len ==> at <= len,
            spec_all_continue(data@, pos as int, at as int),
            total == PADDING_CONTINUATION_VALUE * (at - pos),
        decreases len - at,
    {
        let byte: u8 = data[at];
        if byte != PADDING_CONTINUES {
            proof {
                lemma_padding_run_terminated(data@, pos as int, (at - pos) as nat);
            }
            return Ok((total + byte as u128, at + 1));
        }
        total = total + PADDING_CONTINUATION_VALUE as u128;
        at = at + 1;
    }
    proof {
        if pos < len {
            lemma_padding_run_truncated(data@, pos as int);
        }
    }
    Err(DecodeError::TruncatedPacket)
}

} // verus!
