//! The order of packets in an Ogg Opus stream, as a state machine.
//!
//! A stream starts with an identification header and a comment header; every
//! packet behind them is an audio packet. Whoever reads the stream hands each
//! thing that the reader delivers to [`advance`] as an event, and gets back
//! the next state and what there is to do. Nothing here reads or prints.

use crate::error::DecodeError;
use crate::packet::get_opus_packet;
use crate::packet::spec_opus_packet;
use crate::packet::OpusPacket;
use crate::packet::PacketView;
use crate::tags::read_meta_data;
use crate::tags::spec_fields;
use crate::tags::spec_meta_data;
use crate::tags::FieldData;
use crate::tags::FieldView;
use crate::tags::MetaDataError;
use vstd::prelude::*;

verus! {

/// What the reader of a stream delivers.
pub enum StreamEvent<'a> {
    /// The bytes of the next packet.
    Packet(&'a [u8]),
    /// The stream has ended.
    EndOfStream,
    /// The reader has failed.
    ReadError,
}

/// The mathematical value of a [`StreamEvent`].
pub enum EventView {
    Packet(Seq<u8>),
    EndOfStream,
    ReadError,
}

impl<'a> View for StreamEvent<'a> {
    type V = EventView;

    open spec fn view(&self) -> EventView {
        match self {
            StreamEvent::Packet(bytes) => EventView::Packet(bytes@),
            StreamEvent::EndOfStream => EventView::EndOfStream,
            StreamEvent::ReadError => EventView::ReadError,
        }
    }
}

/// Which part of the stream comes next.
#[derive(Debug, Clone, Copy, PartialEq, Eq, Structural)]
pub enum Stage {
    /// The identification header, which is passed over.
    Identification,
    /// The comment header.
    Comments,
    /// An audio packet.
    Audio,
    /// Nothing: the stream was read to its end, or reading was given up.
    Finished,
}

/// Where in the stream the reader is, and how many audio packets were
/// decoded so far.
#[derive(Debug, Clone, Copy, PartialEq, Eq, Structural)]
pub struct StreamState {
    pub stage: Stage,
    pub packets: u64,
}

/// Why a stream was given up.
#[derive(Debug, Clone, Copy, PartialEq, Eq, Structural)]
pub enum StreamFailure {
    /// The stream ended, or the reader failed, where the comment header was
    /// due.
    MissingComments,
    /// The comment header cannot be read.
    MetaData(MetaDataError),
    /// An audio packet cannot be decoded.
    Packet(DecodeError),
    /// There are more audio packets than the counter can count.
    TooManyPackets,
}

/// What there is to do after an event.
#[derive(Debug)]
pub enum StreamAction {
    /// Nothing.
    Nothing,
    /// Show the entries of the comment header.
    ShowMetaData(Vec<FieldData>),
    /// Show an audio packet.
    ShowPacket(OpusPacket),
    /// Stop reading and report how many audio packets there were; before
    /// that, report the failure of the reader if there was one.
    Stop { packets: u64, read_error: bool },
    /// Give up.
    Fail(StreamFailure),
}

/// The mathematical value of a [`StreamAction`].
pub enum ActionView {
    Nothing,
    ShowMetaData(Seq<FieldView>),
    ShowPacket(PacketView),
    Stop { packets: u64, read_error: bool },
    Fail(StreamFailure),
}

impl View for StreamAction {
    type V = ActionView;

    open spec fn view(&self) -> ActionView {
        match self {
            StreamAction::Nothing => ActionView::Nothing,
            StreamAction::ShowMetaData(fields) => ActionView::ShowMetaData(spec_fields(fields@)),
            StreamAction::ShowPacket(packet) => ActionView::ShowPacket(packet@),
            StreamAction::Stop { packets, read_error } => ActionView::Stop {
                packets: *packets,
                read_error: *read_error,
            },
            StreamAction::Fail(failure) => ActionView::Fail(*failure),
        }
    }
}

/// The state in front of a stream.
pub open spec fn spec_start() -> StreamState {
    StreamState { stage: Stage::Identification, packets: 0 }
}

/// The state after giving up or reaching the end.
pub open spec fn spec_finished(state: StreamState) -> StreamState {
    StreamState { stage: Stage::Finished, packets: state.packets }
}

/// The state and the action that follow `event` in `state`.
///
/// - Whatever is delivered first is passed over: it stands where the
///   identification header is due.
/// - The second delivery must be a packet, the comment header; its entries
///   are shown.
/// - Every later packet is an audio packet: it is decoded, counted and shown.
///   The end of the stream and a failure of the reader both stop the reading.
/// - A comment header or an audio packet that cannot be decoded ends the
///   reading with a failure.
/// - After the end nothing happens any more.
pub open spec fn spec_advance(state: StreamState, event: EventView) -> (StreamState, ActionView) {
    match state.stage {
        Stage::Identification => (
            StreamState { stage: Stage::Comments, packets: state.packets },
            ActionView::Nothing,
        ),
        Stage::Comments => match event {
            EventView::Packet(bytes) => match spec_meta_data(bytes) {
                Ok(fields) => (
                    StreamState { stage: Stage::Audio, packets: state.packets },
                    ActionView::ShowMetaData(fields),
                ),
                Err(e) => (spec_finished(state), ActionView::Fail(StreamFailure::MetaData(e))),
            },
            _ => (spec_finished(state), ActionView::Fail(StreamFailure::MissingComments)),
        },
        Stage::Audio => match event {
            EventView::Packet(bytes) => match spec_opus_packet(bytes) {
                Ok(packet) => if state.packets == u64::MAX {
                    (spec_finished(state), ActionView::Fail(StreamFailure::TooManyPackets))
                } else {
                    (
                        StreamState { stage: Stage::Audio, packets: (state.packets + 1) as u64 },
                        ActionView::ShowPacket(packet),
                    )
                },
                Err(e) => (spec_finished(state), ActionView::Fail(StreamFailure::Packet(e))),
            },
            EventView::EndOfStream => (
                spec_finished(state),
                ActionView::Stop { packets: state.packets, read_error: false },
            ),
            EventView::ReadError => (
                spec_finished(state),
                ActionView::Stop { packets: state.packets, read_error: true },
            ),
        },
        Stage::Finished => (state, ActionView::Nothing),
    }
}

/// The place of a stage in the order of a stream.
pub open spec fn spec_rank(stage: Stage) -> int {
    match stage {
        Stage::Identification => 0,
        Stage::Comments => 1,
        Stage::Audio => 2,
        Stage::Finished => 3,
    }
}

/// A stream only moves forward. An event never takes it back to an earlier
/// stage; the count of audio packets grows by one with each packet that is
/// shown and stays as it is otherwise; and once the reading has stopped or
/// failed, the stream is finished and no event does anything any more.
pub proof fn lemma_advance_moves_forward(state: StreamState, event: EventView)
    ensures
        ({
            let (next, action) = spec_advance(state, event);
            &&& spec_rank(next.stage) >= spec_rank(state.stage)
            &&& next.packets == if action is ShowPacket {
                state.packets + 1
            } else {
                state.packets as int
            }
            &&& action is Stop || action is Fail ==> next.stage == Stage::Finished
            &&& state.stage == Stage::Finished ==> next == state && action is Nothing
            &&& action matches ActionView::Stop { packets, .. } ==> packets == state.packets
        }),
{
}

impl StreamState {
    /// The state in front of a stream: the identification header is due and
    /// no audio packet was counted.
    pub fn start() -> (state: StreamState)
        ensures
            state == spec_start(),
    {
        StreamState { stage: Stage::Identification, packets: 0 }
    }

    fn finished(&self) -> (state: StreamState)
        ensures
            state == spec_finished(*self),
    {
        StreamState { stage: Stage::Finished, packets: self.packets }
    }
}

/// Takes the next event of a stream: returns the state that follows and what
/// there is to do.
pub fn advance(state: StreamState, event: &StreamEvent) -> (r: (StreamState, StreamAction))
    ensures
        (r.0, r.1@) == spec_advance(state, event@),
{
    match state.stage {
        Stage::Identification => (
            StreamState { stage: Stage::Comments, packets: state.packets },
            StreamAction::Nothing,
        ),
        Stage::Comments => match event {
            StreamEvent::Packet(bytes) => match read_meta_data(bytes) {
                Ok(fields) => (
                    StreamState { stage: Stage::Audio, packets: state.packets },
                    StreamAction::ShowMetaData(fields),
                ),
                Err(e) => (state.finished(), StreamAction::Fail(StreamFailure::MetaData(e))),
            },
            _ => (state.finished(), StreamAction::Fail(StreamFailure::MissingComments)),
        },
        Stage::Audio => match event {
            StreamEvent::Packet(bytes) => match get_opus_packet(bytes) {
                Ok(packet) => if state.packets == u64::MAX {
                    (state.finished(), StreamAction::Fail(StreamFailure::TooManyPackets))
                } else {
                    (
                        StreamState { stage: Stage::Audio, packets: state.packets + 1 },
                        StreamAction::ShowPacket(packet),
                    )
                },
                Err(e) => (state.finished(), StreamAction::Fail(StreamFailure::Packet(e))),
            },
            StreamEvent::EndOfStream => (
                state.finished(),
                StreamAction::Stop { packets: state.packets, read_error: false },
            ),
            StreamEvent::ReadError => (
                state.finished(),
                StreamAction::Stop { packets: state.packets, read_error: true },
            ),
        },
        Stage::Finished => (state, StreamAction::Nothing),
    }
}

} // verus!
