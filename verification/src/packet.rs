//! Whole packets: the TOC byte and the frames behind it.

use crate::config::packet_config_from_toc_byte;
use crate::config::spec_code;
use crate::config::spec_packet_config;
use crate::config::PacketConfiguration;
use crate::error::DecodeError;
use crate::frame::spec_spans;
use crate::frame::Frame;
use crate::frame::Span;
use crate::layout::lemma_split_frames_layout;
use crate::layout::spec_fills;
use crate::layout::spec_frame_region;
use crate::split::spec_split_frames;
use crate::split::split_frames;
use vstd::prelude::*;
use vstd::slice::slice_subrange;

verus! {

/// A decoded packet: its configuration and its frames in order. The frames
/// are spans of the buffer that the packet was decoded from.
#[derive(Debug)]
pub struct OpusPacket {
    pub config: PacketConfiguration,
    pub frames: Vec<Frame>,
}

/// The mathematical value of an [`OpusPacket`].
pub struct PacketView {
    pub config: PacketConfiguration,
    pub frames: Seq<Span>,
}

impl View for OpusPacket {
    type V = PacketView;

    open spec fn view(&self) -> PacketView {
        PacketView { config: self.config, frames: spec_spans(self.frames@) }
    }
}

/// The spans moved `by` bytes towards the end of the buffer.
pub open spec fn spec_shifted(spans: Seq<Span>, by: int) -> Seq<Span> {
    Seq::new(spans.len(), |i: int| spans[i].shifted(by))
}

/// What a packet buffer decodes to. Byte 0 is the TOC byte and gives the
/// configuration; the bytes behind it are the payload, which is split as the
/// frame-count code of the configuration prescribes. The spans of the frames
/// count from the start of the buffer, TOC byte included. An empty buffer is
/// truncated.
pub open spec fn spec_opus_packet(packet: Seq<u8>) -> Result<PacketView, DecodeError> {
    if packet.len() == 0 {
        Err(DecodeError::TruncatedPacket)
    } else {
        match spec_split_frames(spec_code(packet[0]), packet.skip(1)) {
            Err(e) => Err(e),
            Ok(spans) => Ok(
                PacketView { config: spec_packet_config(packet[0]), frames: spec_shifted(spans, 1) },
            ),
        }
    }
}

/// The frames of a packet that can be decoded are the frames of its payload
/// seen from the start of the packet: each lies one byte further and covers
/// the same bytes. They lie behind the TOC byte, one behind the other, inside
/// the packet.
pub proof fn lemma_opus_packet_layout(packet: Seq<u8>)
    requires
        spec_opus_packet(packet) is Ok,
    ensures
        ({
            let decoded = spec_opus_packet(packet)->Ok_0;
            let code = spec_code(packet[0]);
            let payload = packet.skip(1);
            let spans = spec_split_frames(code, payload)->Ok_0;
            let (start, end) = spec_frame_region(code, payload);
            &&& packet.len() >= 1
            &&& decoded.config == spec_packet_config(packet[0])
            &&& decoded.frames.len() == spans.len()
            &&& spec_fills(decoded.frames, start + 1, end + 1)
            &&& 1 <= start + 1 <= end + 1 <= packet.len()
            &&& forall|i: int|
                0 <= i < decoded.frames.len() ==> {
                    &&& (#[trigger] decoded.frames[i]).offset >= 1
                    &&& decoded.frames[i].within(packet.len() as int)
                    &&& decoded.frames[i].bytes(packet) == spans[i].bytes(payload)
                }
        }),
{
    lemma_split_frames_layout(spec_code(packet[0]), packet.skip(1));
}

/// Moves every frame `by` bytes towards the end of the buffer.
fn shift_frames(frames: Vec<Frame>, by: usize) -> (shifted: Vec<Frame>)
    requires
        forall|i: int| 0 <= i < frames@.len() ==> (#[trigger] frames@[i]).offset + by <= usize::MAX,
    ensures
        spec_spans(shifted@) == spec_shifted(spec_spans(frames@), by as int),
{
    let mut shifted: Vec<Frame> = Vec::with_capacity(frames.len());
    let mut i: usize = 0;
    while i < frames.len()
        invariant
            i <= frames@.len(),
            shifted@.len() == i,
            forall|k: int|
                0 <= k < frames@.len() ==> (#[trigger] frames@[k]).offset + by <= usize::MAX,
            forall|k: int| 0 <= k < i ==> (#[trigger] shifted@[k])@ == frames@[k]@.shifted(by as int),
        decreases frames@.len() - i,
    {
        let frame: Frame = frames[i];
        shifted.push(Frame { offset: frame.offset + by, length: frame.length });
        i = i + 1;
    }
    assert(spec_spans(shifted@) =~= spec_shifted(spec_spans(frames@), by as int));
    shifted
}

/// Decodes one packet: the configuration that its TOC byte encodes and the
/// spans of its frames inside `packet_data`.
pub fn get_opus_packet(packet_data: &[u8]) -> (r: Result<OpusPacket, DecodeError>)
    ensures
        match r {
            Ok(packet) => spec_opus_packet(packet_data@) == Ok::<PacketView, DecodeError>(packet@),
            Err(e) => spec_opus_packet(packet_data@) == Err::<PacketView, DecodeError>(e),
        },
        packet_data@.len() == 0 ==> r == Err::<OpusPacket, DecodeError>(
            DecodeError::TruncatedPacket,
        ),
        r matches Ok(packet) ==> forall|i: int|
            0 <= i < packet.frames@.len() ==> (#[trigger] packet.frames@[i])@.within(
                packet_data@.len() as int,
            ),
{
    let len: usize = packet_data.len();
    if len == 0 {
        return Err(DecodeError::TruncatedPacket);
    }
    let config: PacketConfiguration = match packet_config_from_toc_byte(packet_data[0]) {
        Ok(config) => config,
        Err(e) => {
            return Err(e);
        },
    };
    let payload: &[u8] = slice_subrange(packet_data, 1, len);
    let relative: Vec<Frame> = match split_frames(config.code, payload) {
        Ok(frames) => frames,
        Err(e) => {
            return Err(e);
        },
    };
    let frames: Vec<Frame> = shift_frames(relative, 1);
    proof {
        lemma_opus_packet_layout(packet_data@);
        assert forall|i: int| 0 <= i < frames@.len() implies (#[trigger] frames@[i])@.within(
            len as int,
        ) by {
            assert(spec_spans(frames@)[i] == frames@[i]@);
        }
    }
    let packet = OpusPacket { config, frames };
    Ok(packet)
}

} // verus!
