use opus_decode::packet_config_from_toc_byte;
use opus_decode::Bandwidth;
use opus_decode::FrameCountCode;
use opus_decode::FrameDuration;
use opus_decode::PacketConfiguration;
use opus_decode::PacketMode;
use opus_decode::Bandwidth::{Full, Medium, Narrow, SuperWide, Wide};
use opus_decode::FrameDuration::{Five, Forty, Sixty, Ten, Twenty, TwoPointFive};
use opus_decode::PacketMode::{Hybrid, CELT, SILK};
use opus_decode::Signal;

fn table() -> Vec<(PacketMode, Bandwidth, FrameDuration)> {
    vec![
        (SILK, Narrow, Ten),
        (SILK, Narrow, Twenty),
        (SILK, Narrow, Forty),
        (SILK, Narrow, Sixty),
        (SILK, Medium, Ten),
        (SILK, Medium, Twenty),
        (SILK, Medium, Forty),
        (SILK, Medium, Sixty),
        (SILK, Wide, Ten),
        (SILK, Wide, Twenty),
        (SILK, Wide, Forty),
        (SILK, Wide, Sixty),
        (Hybrid, SuperWide, Ten),
        (Hybrid, SuperWide, Twenty),
        (Hybrid, Full, Ten),
        (Hybrid, Full, Twenty),
        (CELT, Narrow, TwoPointFive),
        (CELT, Narrow, Five),
        (CELT, Narrow, Ten),
        (CELT, Narrow, Twenty),
        (CELT, Wide, TwoPointFive),
        (CELT, Wide, Five),
        (CELT, Wide, Ten),
        (CELT, Wide, Twenty),
        (CELT, SuperWide, TwoPointFive),
        (CELT, SuperWide, Five),
        (CELT, SuperWide, Ten),
        (CELT, SuperWide, Twenty),
        (CELT, Full, TwoPointFive),
        (CELT, Full, Five),
        (CELT, Full, Ten),
        (CELT, Full, Twenty),
    ]
}

#[test]
fn every_toc_byte_decodes_to_its_table_row() {
    let table = table();
    assert_eq!(table.len(), 32);
    for byte in 0..=255u8 {
        let config = packet_config_from_toc_byte(byte).unwrap();
        let (mode, bandwidth, frame_size) = table[(byte >> 3) as usize];
        let signal = if byte & 4 == 0 { Signal::Mono } else { Signal::Stereo };
        let code = match byte & 3 {
            0 => FrameCountCode::Single,
            1 => FrameCountCode::TwoEqual,
            2 => FrameCountCode::TwoDifferent,
            _ => FrameCountCode::Arbitrary,
        };
        assert_eq!(config, PacketConfiguration { mode, bandwidth, frame_size, signal, code });
    }
}

#[test]
fn the_table_rows_are_distinct() {
    let table = table();
    for a in 0..table.len() {
        for b in 0..table.len() {
            assert_eq!(a == b, table[a] == table[b]);
        }
    }
}

#[test]
fn different_toc_bytes_give_different_configurations() {
    for a in 0..=255u8 {
        for b in 0..=255u8 {
            let same = packet_config_from_toc_byte(a) == packet_config_from_toc_byte(b);
            assert_eq!(same, a == b);
        }
    }
}

#[test]
fn toc_byte_zero_is_silk_narrow_ten_mono_single() {
    let config = packet_config_from_toc_byte(0).unwrap();
    assert_eq!(config.mode, PacketMode::SILK);
    assert_eq!(config.bandwidth, Bandwidth::Narrow);
    assert_eq!(config.frame_size, FrameDuration::Ten);
    assert_eq!(config.signal, Signal::Mono);
    assert_eq!(config.code, FrameCountCode::Single);
}

#[test]
fn toc_byte_255_is_celt_full_twenty_stereo_arbitrary() {
    let config = packet_config_from_toc_byte(255).unwrap();
    assert_eq!(config.mode, PacketMode::CELT);
    assert_eq!(config.bandwidth, Bandwidth::Full);
    assert_eq!(config.frame_size, FrameDuration::Twenty);
    assert_eq!(config.signal, Signal::Stereo);
    assert_eq!(config.code, FrameCountCode::Arbitrary);
}

#[test]
fn hybrid_configurations_have_two_durations_each() {
    let c12 = packet_config_from_toc_byte(12 << 3).unwrap();
    let c13 = packet_config_from_toc_byte(13 << 3).unwrap();
    let c14 = packet_config_from_toc_byte(14 << 3).unwrap();
    let c15 = packet_config_from_toc_byte(15 << 3).unwrap();
    assert_eq!((c12.mode, c12.bandwidth, c12.frame_size), (PacketMode::Hybrid, Bandwidth::SuperWide, FrameDuration::Ten));
    assert_eq!((c13.mode, c13.bandwidth, c13.frame_size), (PacketMode::Hybrid, Bandwidth::SuperWide, FrameDuration::Twenty));
    assert_eq!((c14.mode, c14.bandwidth, c14.frame_size), (PacketMode::Hybrid, Bandwidth::Full, FrameDuration::Ten));
    assert_eq!((c15.mode, c15.bandwidth, c15.frame_size), (PacketMode::Hybrid, Bandwidth::Full, FrameDuration::Twenty));
}

#[test]
fn frame_durations_in_microseconds() {
    assert_eq!(FrameDuration::TwoPointFive.micros(), 2_500);
    assert_eq!(FrameDuration::Five.micros(), 5_000);
    assert_eq!(FrameDuration::Ten.micros(), 10_000);
    assert_eq!(FrameDuration::Twenty.micros(), 20_000);
    assert_eq!(FrameDuration::Forty.micros(), 40_000);
    assert_eq!(FrameDuration::Sixty.micros(), 60_000);
}
