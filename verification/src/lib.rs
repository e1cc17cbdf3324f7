//! Framing of Opus packets (RFC 6716, section 3).
//!
//! A packet starts with a table-of-contents (TOC) byte that names the coding
//! mode, the audio bandwidth, the frame duration, the channel layout and one
//! of four frame-count codes. The frame-count code decides how the bytes after
//! the TOC byte are divided into frames. This crate decodes the TOC byte and
//! computes the byte span of every frame; it never decodes audio.
//!
//! - [`config`]: the TOC byte and the configuration it encodes.
//! - [`length`]: the two variable-length encodings of the packet header.
//! - [`split`]: the frames of a payload under each frame-count code.
//! - [`layout`]: what holds of the frames of every payload.
//! - [`packet`]: whole packets.
//! - [`tags`]: the comment header of an Ogg Opus stream.
//! - [`stream`]: the order of packets in an Ogg Opus stream.
//!
//! The functions are verified against a mathematical model of the format:
//! the `spec_*` functions over `Seq<u8>` say what the bytes mean, and the
//! executable functions are proved to compute exactly that, without panics
//! and without arithmetic overflow. The one call that is believed rather
//! than proved is the little-endian decoding in [`tags`], which is done by
//! the `byteorder` crate.

pub mod config;
pub mod error;
pub mod frame;
pub mod layout;
pub mod length;
pub mod packet;
pub mod split;
pub mod stream;
pub mod tags;

pub use config::packet_config_from_toc_byte;
pub use config::Bandwidth;
pub use config::FrameCountCode;
pub use config::FrameDuration;
pub use config::PacketConfiguration;
pub use config::PacketMode;
pub use config::Signal;
pub use error::DecodeError;
pub use frame::Frame;
pub use length::read_frame_length;
pub use length::read_padding_length;
pub use packet::get_opus_packet;
pub use packet::OpusPacket;
pub use split::split_frames;
pub use stream::advance;
pub use stream::Stage;
pub use stream::StreamAction;
pub use stream::StreamEvent;
pub use stream::StreamFailure;
pub use stream::StreamState;
pub use tags::read_meta_data;
pub use tags::split_field;
pub use tags::FieldData;
pub use tags::MetaDataError;
