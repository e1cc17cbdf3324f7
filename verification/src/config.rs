//! The table-of-contents byte and the configuration it encodes.
//!
//! Bit layout of the TOC byte, most significant bit first:
//!
//! ```text
//!  7 6 5 4 3   2   1 0
//! +---------+---+-----+
//! | config  | s |  c  |
//! +---------+---+-----+
//! ```
//!
//! `config` (0..=31) selects mode, bandwidth and frame duration, `s` is the
//! channel signal and `c` the frame-count code.

use crate::error::DecodeError;
use vstd::prelude::*;

verus! {

/// The coding algorithm of a packet.
#[derive(Debug, Clone, Copy, PartialEq, Eq, Structural)]
pub enum PacketMode {
    /// Linear-prediction coding, for low bandwidth.
    SILK,
    /// SILK for the low band, CELT for the high band.
    Hybrid,
    /// Transform coding, for high bandwidth.
    CELT,
}

/// The audio bandwidth of a packet.
#[derive(Debug, Clone, Copy, PartialEq, Eq, Structural)]
pub enum Bandwidth {
    /// 4 kHz audio bandwidth.
    Narrow,
    /// 6 kHz audio bandwidth.
    Medium,
    /// 8 kHz audio bandwidth.
    Wide,
    /// 12 kHz audio bandwidth.
    SuperWide,
    /// 20 kHz audio bandwidth.
    Full,
}

/// Mono or stereo.
#[derive(Debug, Clone, Copy, PartialEq, Eq, Structural)]
pub enum Signal {
    Mono,
    Stereo,
}

/// How the payload of a packet is divided into frames.
#[derive(Debug, Clone, Copy, PartialEq, Eq, Structural)]
pub enum FrameCountCode {
    /// One frame that takes the whole payload.
    Single,
    /// Two frames of equal size.
    TwoEqual,
    /// Two frames; the size of the first is written in front of it.
    TwoDifferent,
    /// A frame count byte, optional padding and one to 63 frames.
    Arbitrary,
}

/// The duration of each frame of a packet: 2.5, 5, 10, 20, 40 or 60 ms.
#[derive(Debug, Clone, Copy, PartialEq, Eq, Structural)]
pub enum FrameDuration {
    TwoPointFive,
    Five,
    Ten,
    Twenty,
    Forty,
    Sixty,
}

impl FrameDuration {
    /// The duration in microseconds.
    pub open spec fn spec_micros(self) -> int {
        match self {
            FrameDuration::TwoPointFive => 2_500,
            FrameDuration::Five => 5_000,
            FrameDuration::Ten => 10_000,
            FrameDuration::Twenty => 20_000,
            FrameDuration::Forty => 40_000,
            FrameDuration::Sixty => 60_000,
        }
    }

    /// The duration in microseconds.
    pub fn micros(&self) -> (r: u32)
        ensures
            r == self.spec_micros(),
    {
        match self {
            FrameDuration::TwoPointFive => 2_500,
            FrameDuration::Five => 5_000,
            FrameDuration::Ten => 10_000,
            FrameDuration::Twenty => 20_000,
            FrameDuration::Forty => 40_000,
            FrameDuration::Sixty => 60_000,
        }
    }
}

/// What the TOC byte says of a packet.
#[derive(Debug, Clone, Copy, PartialEq, Eq, Structural)]
pub struct PacketConfiguration {
    pub mode: PacketMode,
    pub bandwidth: Bandwidth,
    pub frame_size: FrameDuration,
    pub signal: Signal,
    pub code: FrameCountCode,
}

/// The configuration number held in the five high bits of the TOC byte.
pub open spec fn spec_config_number(toc: u8) -> int {
    toc as int / 8
}

/// The coding mode of configuration `config`: 0..=11 SILK, 12..=15 hybrid,
/// 16..=31 CELT.
pub open spec fn spec_mode(config: int) -> PacketMode {
    if config < 12 {
        PacketMode::SILK
    } else if config < 16 {
        PacketMode::Hybrid
    } else {
        PacketMode::CELT
    }
}

/// The bandwidth of configuration `config`. Each mode walks through its
/// bandwidths in rising order, four configurations each (two in hybrid mode).
pub open spec fn spec_bandwidth(config: int) -> Bandwidth {
    if config < 4 {
        Bandwidth::Narrow
    } else if config < 8 {
        Bandwidth::Medium
    } else if config < 12 {
        Bandwidth::Wide
    } else if config < 14 {
        Bandwidth::SuperWide
    } else if config < 16 {
        Bandwidth::Full
    } else if config < 20 {
        Bandwidth::Narrow
    } else if config < 24 {
        Bandwidth::Wide
    } else if config < 28 {
        Bandwidth::SuperWide
    } else {
        Bandwidth::Full
    }
}

/// The frame duration of configuration `config`. Within one mode and
/// bandwidth the configurations count through the durations of the mode:
/// 10, 20, 40, 60 ms for SILK, 10, 20 ms for hybrid, 2.5, 5, 10, 20 ms for CELT.
pub open spec fn spec_frame_duration(config: int) -> FrameDuration {
    if config < 12 {
        if config % 4 == 0 {
            FrameDuration::Ten
        } else if config % 4 == 1 {
            FrameDuration::Twenty
        } else if config % 4 == 2 {
            FrameDuration::Forty
        } else {
            FrameDuration::Sixty
        }
    } else if config < 16 {
        if config % 2 == 0 {
            FrameDuration::Ten
        } else {
            FrameDuration::Twenty
        }
    } else {
        if config % 4 == 0 {
            FrameDuration::TwoPointFive
        } else if config % 4 == 1 {
            FrameDuration::Five
        } else if config % 4 == 2 {
            FrameDuration::Ten
        } else {
            FrameDuration::Twenty
        }
    }
}

/// The channel signal, bit 2 of the TOC byte.
pub open spec fn spec_signal(toc: u8) -> Signal {
    if (toc as int / 4) % 2 == 1 {
        Signal::Stereo
    } else {
        Signal::Mono
    }
}

/// The frame-count code, the two low bits of the TOC byte.
pub open spec fn spec_code(toc: u8) -> FrameCountCode {
    if toc as int % 4 == 0 {
        FrameCountCode::Single
    } else if toc as int % 4 == 1 {
        FrameCountCode::TwoEqual
    } else if toc as int % 4 == 2 {
        FrameCountCode::TwoDifferent
    } else {
        FrameCountCode::Arbitrary
    }
}

/// The configuration that the TOC byte `toc` encodes.
pub open spec fn spec_packet_config(toc: u8) -> PacketConfiguration {
    PacketConfiguration {
        mode: spec_mode(spec_config_number(toc)),
        bandwidth: spec_bandwidth(spec_config_number(toc)),
        frame_size: spec_frame_duration(spec_config_number(toc)),
        signal: spec_signal(toc),
        code: spec_code(toc),
    }
}

impl PacketConfiguration {
    /// Mode, bandwidth and frame duration are those of one of the 32
    /// configuration numbers.
    pub open spec fn is_defined(&self) -> bool {
        exists|config: int|
            0 <= config < 32 && self.mode == #[trigger] spec_mode(config) && self.bandwidth
                == spec_bandwidth(config) && self.frame_size == spec_frame_duration(config)
    }
}

/// The table of the 32 configuration numbers, one row each.
fn config_entry(config: u8) -> (r: (PacketMode, Bandwidth, FrameDuration))
    requires
        config < 32,
    ensures
        r.0 == spec_mode(config as int),
        r.1 == spec_bandwidth(config as int),
        r.2 == spec_frame_duration(config as int),
{
    match config {
        0 => (PacketMode::SILK, Bandwidth::Narrow, FrameDuration::Ten),
        1 => (PacketMode::SILK, Bandwidth::Narrow, FrameDuration::Twenty),
        2 => (PacketMode::SILK, Bandwidth::Narrow, FrameDuration::Forty),
        3 => (PacketMode::SILK, Bandwidth::Narrow, FrameDuration::Sixty),
        4 => (PacketMode::SILK, Bandwidth::Medium, FrameDuration::Ten),
        5 => (PacketMode::SILK, Bandwidth::Medium, FrameDuration::Twenty),
        6 => (PacketMode::SILK, Bandwidth::Medium, FrameDuration::Forty),
        7 => (PacketMode::SILK, Bandwidth::Medium, FrameDuration::Sixty),
        8 => (PacketMode::SILK, Bandwidth::Wide, FrameDuration::Ten),
        9 => (PacketMode::SILK, Bandwidth::Wide, FrameDuration::Twenty),
        10 => (PacketMode::SILK, Bandwidth::Wide, FrameDuration::Forty),
        11 => (PacketMode::SILK, Bandwidth::Wide, FrameDuration::Sixty),
        12 => (PacketMode::Hybrid, Bandwidth::SuperWide, FrameDuration::Ten),
        13 => (PacketMode::Hybrid, Bandwidth::SuperWide, FrameDuration::Twenty),
        14 => (PacketMode::Hybrid, Bandwidth::Full, FrameDuration::Ten),
        15 => (PacketMode::Hybrid, Bandwidth::Full, FrameDuration::Twenty),
        16 => (PacketMode::CELT, Bandwidth::Narrow, FrameDuration::TwoPointFive),
        17 => (PacketMode::CELT, Bandwidth::Narrow, FrameDuration::Five),
        18 => (PacketMode::CELT, Bandwidth::Narrow, FrameDuration::Ten),
        19 => (PacketMode::CELT, Bandwidth::Narrow, FrameDuration::Twenty),
        20 => (PacketMode::CELT, Bandwidth::Wide, FrameDuration::TwoPointFive),
        21 => (PacketMode::CELT, Bandwidth::Wide, FrameDuration::Five),
        22 => (PacketMode::CELT, Bandwidth::Wide, FrameDuration::Ten),
        23 => (PacketMode::CELT, Bandwidth::Wide, FrameDuration::Twenty),
        24 => (PacketMode::CELT, Bandwidth::SuperWide, FrameDuration::TwoPointFive),
        25 => (PacketMode::CELT, Bandwidth::SuperWide, FrameDuration::Five),
        26 => (PacketMode::CELT, Bandwidth::SuperWide, FrameDuration::Ten),
        27 => (PacketMode::CELT, Bandwidth::SuperWide, FrameDuration::Twenty),
        28 => (PacketMode::CELT, Bandwidth::Full, FrameDuration::TwoPointFive),
        29 => (PacketMode::CELT, Bandwidth::Full, FrameDuration::Five),
        30 => (PacketMode::CELT, Bandwidth::Full, FrameDuration::Ten),
        _ => (PacketMode::CELT, Bandwidth::Full, FrameDuration::Twenty),
    }
}

/// Decodes the TOC byte of a packet. Every byte is a valid TOC byte, so the
/// result is always `Ok`.
pub fn packet_config_from_toc_byte(toc_byte: u8) -> (r: Result<PacketConfiguration, DecodeError>)
    ensures
        r == Ok::<PacketConfiguration, DecodeError>(spec_packet_config(toc_byte)),
        spec_packet_config(toc_byte).is_defined(),
{
    let config: u8 = toc_byte >> 3;
    let stereo: bool = toc_byte & 0b100 != 0;
    let code_bits: u8 = toc_byte & 0b11;
    proof {
        lemma_toc_bit_layout(toc_byte);
        lemma_every_toc_byte_is_defined(toc_byte);
    }
    let entry = config_entry(config);
    let signal = if stereo {
        Signal::Stereo
    } else {
        Signal::Mono
    };
    let code = match code_bits {
        0 => FrameCountCode::Single,
        1 => FrameCountCode::TwoEqual,
        2 => FrameCountCode::TwoDifferent,
        _ => FrameCountCode::Arbitrary,
    };
    Ok(PacketConfiguration { mode: entry.0, bandwidth: entry.1, frame_size: entry.2, signal, code })
}

/// The fields of the TOC byte in terms of its bits: the configuration number
/// is the five high bits, the channel signal is bit 2, and the frame-count
/// code is the two low bits, 0 to 3 for the four codes in their order.
pub proof fn lemma_toc_bit_layout(toc: u8)
    ensures
        spec_config_number(toc) == toc >> 3,
        spec_signal(toc) == Signal::Stereo <==> toc & 0b100 != 0,
        spec_code(toc) == FrameCountCode::Single <==> toc & 0b11 == 0,
        spec_code(toc) == FrameCountCode::TwoEqual <==> toc & 0b11 == 1,
        spec_code(toc) == FrameCountCode::TwoDifferent <==> toc & 0b11 == 2,
        spec_code(toc) == FrameCountCode::Arbitrary <==> toc & 0b11 == 3,
{
    assert(toc >> 3 == toc / 8) by (bit_vector);
    assert((toc & 0b100 != 0) <==> (toc / 4) % 2 == 1) by (bit_vector);
    assert(toc & 0b11 == toc % 4) by (bit_vector);
}

/// Whatever the TOC byte, its mode, bandwidth and frame duration are one of
/// the 32 defined triples: the one of its configuration number.
pub proof fn lemma_every_toc_byte_is_defined(toc: u8)
    ensures
        0 <= spec_config_number(toc) < 32,
        spec_packet_config(toc).is_defined(),
{
}

/// No two configuration numbers share mode, bandwidth and frame duration:
/// the 32 triples are distinct.
pub proof fn lemma_config_triples_distinct(a: int, b: int)
    requires
        0 <= a < 32,
        0 <= b < 32,
        spec_mode(a) == spec_mode(b),
        spec_bandwidth(a) == spec_bandwidth(b),
        spec_frame_duration(a) == spec_frame_duration(b),
    ensures
        a == b,
{
}

/// Decoding loses nothing: two TOC bytes with the same configuration are the
/// same byte.
pub proof fn lemma_toc_byte_determined_by_config(a: u8, b: u8)
    requires
        spec_packet_config(a) == spec_packet_config(b),
    ensures
        a == b,
{
    lemma_config_triples_distinct(spec_config_number(a), spec_config_number(b));
}

} // verus!
