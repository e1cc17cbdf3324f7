use opus_decode::advance;
use opus_decode::DecodeError;
use opus_decode::MetaDataError;
use opus_decode::Stage;
use opus_decode::StreamAction;
use opus_decode::StreamEvent;
use opus_decode::StreamFailure;
use opus_decode::StreamState;

fn comments() -> Vec<u8> {
    let mut bytes = b"OpusTags".to_vec();
    bytes.extend([1u8, 0, 0, 0]);
    bytes.extend(b"v");
    bytes.extend([1u8, 0, 0, 0]);
    bytes.extend([3u8, 0, 0, 0]);
    bytes.extend(b"A=b");
    bytes
}

fn at(stage: Stage, packets: u64) -> StreamState {
    StreamState { stage, packets }
}

#[test]
fn stream_starts_in_front_of_the_identification_header() {
    assert_eq!(StreamState::start(), at(Stage::Identification, 0));
}

#[test]
fn whatever_comes_first_is_passed_over() {
    let head = b"OpusHead".to_vec();
    let events = [StreamEvent::Packet(&head), StreamEvent::EndOfStream, StreamEvent::ReadError];
    for event in events.iter() {
        let (next, action) = advance(StreamState::start(), event);
        assert_eq!(next, at(Stage::Comments, 0));
        assert!(matches!(action, StreamAction::Nothing));
    }
}

#[test]
fn comment_header_is_shown() {
    let bytes = comments();
    let (next, action) = advance(at(Stage::Comments, 0), &StreamEvent::Packet(&bytes));
    assert_eq!(next, at(Stage::Audio, 0));
    match action {
        StreamAction::ShowMetaData(fields) => {
            assert_eq!(fields.len(), 2);
            assert_eq!(fields[0].info, b"v".to_vec());
            assert_eq!(fields[1].name, b"A".to_vec());
            assert_eq!(fields[1].info, b"b".to_vec());
        }
        other => panic!("{:?}", other),
    }
}

#[test]
fn comment_header_that_cannot_be_read_fails() {
    let bytes = b"OpusTags".to_vec();
    let (next, action) = advance(at(Stage::Comments, 0), &StreamEvent::Packet(&bytes));
    assert_eq!(next, at(Stage::Finished, 0));
    assert!(matches!(
        action,
        StreamAction::Fail(StreamFailure::MetaData(MetaDataError::Truncated))
    ));
}

#[test]
fn stream_without_comment_header_fails() {
    for event in [StreamEvent::EndOfStream, StreamEvent::ReadError].iter() {
        let (next, action) = advance(at(Stage::Comments, 0), event);
        assert_eq!(next, at(Stage::Finished, 0));
        assert!(matches!(action, StreamAction::Fail(StreamFailure::MissingComments)));
    }
}

#[test]
fn audio_packets_are_decoded_and_counted() {
    let bytes = vec![0b0000_0001u8, 1, 2, 3, 4];
    let (next, action) = advance(at(Stage::Audio, 7), &StreamEvent::Packet(&bytes));
    assert_eq!(next, at(Stage::Audio, 8));
    match action {
        StreamAction::ShowPacket(packet) => {
            assert_eq!(packet.frames.len(), 2);
            assert_eq!((packet.frames[1].offset, packet.frames[1].length), (3, 2));
        }
        other => panic!("{:?}", other),
    }
}

#[test]
fn audio_packet_that_cannot_be_decoded_fails() {
    let bytes = vec![0b0000_0001u8, 1, 2, 3];
    let (next, action) = advance(at(Stage::Audio, 7), &StreamEvent::Packet(&bytes));
    assert_eq!(next, at(Stage::Finished, 7));
    assert!(matches!(
        action,
        StreamAction::Fail(StreamFailure::Packet(DecodeError::InvalidFrameLayout))
    ));
    let (_, action) = advance(at(Stage::Audio, 7), &StreamEvent::Packet(&[]));
    assert!(matches!(
        action,
        StreamAction::Fail(StreamFailure::Packet(DecodeError::TruncatedPacket))
    ));
}

#[test]
fn audio_packet_beyond_the_counter_fails() {
    let bytes = vec![0u8, 1];
    let (next, action) = advance(at(Stage::Audio, u64::MAX), &StreamEvent::Packet(&bytes));
    assert_eq!(next, at(Stage::Finished, u64::MAX));
    assert!(matches!(action, StreamAction::Fail(StreamFailure::TooManyPackets)));
}

#[test]
fn end_of_stream_stops_with_the_count() {
    let (next, action) = advance(at(Stage::Audio, 5), &StreamEvent::EndOfStream);
    assert_eq!(next, at(Stage::Finished, 5));
    assert!(matches!(action, StreamAction::Stop { packets: 5, read_error: false }));
}

#[test]
fn read_error_stops_with_the_count() {
    let (next, action) = advance(at(Stage::Audio, 5), &StreamEvent::ReadError);
    assert_eq!(next, at(Stage::Finished, 5));
    assert!(matches!(action, StreamAction::Stop { packets: 5, read_error: true }));
}

#[test]
fn nothing_happens_after_the_end() {
    let bytes = vec![0u8, 1];
    let events = [StreamEvent::Packet(&bytes), StreamEvent::EndOfStream, StreamEvent::ReadError];
    for event in events.iter() {
        let (next, action) = advance(at(Stage::Finished, 3), event);
        assert_eq!(next, at(Stage::Finished, 3));
        assert!(matches!(action, StreamAction::Nothing));
    }
}

#[test]
fn a_whole_stream() {
    let head = b"OpusHead".to_vec();
    let tags = comments();
    let first = vec![0u8, 1, 2];
    let second = vec![0b0000_0011u8, 0b0000_0010, 1, 2];
    let events = [
        StreamEvent::Packet(&head),
        StreamEvent::Packet(&tags),
        StreamEvent::Packet(&first),
        StreamEvent::Packet(&second),
        StreamEvent::EndOfStream,
    ];
    let mut state = StreamState::start();
    let mut shown = 0;
    let mut stopped = None;
    for event in events.iter() {
        let (next, action) = advance(state, event);
        state = next;
        match action {
            StreamAction::ShowPacket(_) => shown += 1,
            StreamAction::Stop { packets, read_error } => stopped = Some((packets, read_error)),
            StreamAction::Fail(failure) => panic!("{:?}", failure),
            _ => (),
        }
    }
    assert_eq!(shown, 2);
    assert_eq!(stopped, Some((2, false)));
    assert_eq!(state, at(Stage::Finished, 2));
}
