//! The headers of audio datagrams.
//!
//! Every datagram starts with an RTP header; one that carries parity has a
//! second header that names the block of data packets it protects. All numbers
//! are big endian.

use vstd::prelude::*;

use crate::bytes::{be_u16, be_u32, read_be_u16, read_be_u32};

verus! {

/// The RTP payload type of a datagram that carries one Opus packet.
pub const RTP_PAYLOAD_TYPE_AUDIO: u8 = 97;

/// The RTP payload type of a datagram that carries one parity shard.
pub const RTP_PAYLOAD_TYPE_AUDIO_FEC: u8 = 127;

/// The number of data packets in a block.
pub const RTP_AUDIO_DATA_SHARDS: usize = 4;

/// The number of parity shards that protect a block.
pub const RTP_AUDIO_FEC_SHARDS: usize = 2;

/// The number of shards of a block, data and parity together.
pub const RTP_AUDIO_TOTAL_SHARDS: usize = 6;

/// The length of an [`RtpAudioHeader`] on the wire.
pub const RTP_AUDIO_HEADER_SIZE: usize = 12;

/// The length of an [`AudioFecHeader`] on the wire.
pub const AUDIO_FEC_HEADER_SIZE: usize = 12;

/// The RTP header of an audio datagram.
#[derive(Debug, Clone, Copy, PartialEq, Eq, Structural)]
pub struct RtpAudioHeader {
    pub header: u8,
    pub packet_type: u8,
    pub sequence_number: u16,
    pub timestamp: u32,
    pub ssrc: u32,
}

impl RtpAudioHeader {
    /// The header that starts at `at`.
    pub open spec fn parsed(bytes: Seq<u8>, at: int) -> RtpAudioHeader {
        RtpAudioHeader {
            header: bytes[at],
            packet_type: bytes[at + 1],
            sequence_number: be_u16(bytes, at + 2),
            timestamp: be_u32(bytes, at + 4),
            ssrc: be_u32(bytes, at + 8),
        }
    }

    /// Reads the header that starts at `at`.
    pub fn deserialize(bytes: &[u8], at: usize) -> (header: RtpAudioHeader)
        requires
            at + RTP_AUDIO_HEADER_SIZE <= bytes@.len(),
        ensures
            header == RtpAudioHeader::parsed(bytes@, at as int),
    {
        RtpAudioHeader {
            header: bytes[at],
            packet_type: bytes[at + 1],
            sequence_number: read_be_u16(bytes, at + 2),
            timestamp: read_be_u32(bytes, at + 4),
            ssrc: read_be_u32(bytes, at + 8),
        }
    }
}

/// The header that follows the RTP header of a parity datagram.
#[derive(Debug, Clone, Copy, PartialEq, Eq, Structural)]
pub struct AudioFecHeader {
    pub fec_shard_index: u8,
    pub payload_type: u8,
    pub base_sequence_number: u16,
    pub base_timestamp: u32,
    pub ssrc: u32,
}

impl AudioFecHeader {
    /// The header that starts at `at`.
    pub open spec fn parsed(bytes: Seq<u8>, at: int) -> AudioFecHeader {
        AudioFecHeader {
            fec_shard_index: bytes[at],
            payload_type: bytes[at + 1],
            base_sequence_number: be_u16(bytes, at + 2),
            base_timestamp: be_u32(bytes, at + 4),
            ssrc: be_u32(bytes, at + 8),
        }
    }

    /// Reads the header that starts at `at`.
    pub fn deserialize(bytes: &[u8], at: usize) -> (header: AudioFecHeader)
        requires
            at + AUDIO_FEC_HEADER_SIZE <= bytes@.len(),
        ensures
            header == AudioFecHeader::parsed(bytes@, at as int),
    {
        AudioFecHeader {
            fec_shard_index: bytes[at],
            payload_type: bytes[at + 1],
            base_sequence_number: read_be_u16(bytes, at + 2),
            base_timestamp: read_be_u32(bytes, at + 4),
            ssrc: read_be_u32(bytes, at + 8),
        }
    }
}

} // verus!
