//! What a host sent, to compare with what is given out.

use vstd::prelude::*;

use crate::audio::fec::audio_code;
use crate::audio::galois::is_codeword;
use crate::audio::model::{in_block, AudioView, FecView};
use crate::audio::packet::{
    AudioFecHeader, RtpAudioHeader, AUDIO_FEC_HEADER_SIZE, RTP_AUDIO_DATA_SHARDS,
    RTP_AUDIO_HEADER_SIZE, RTP_PAYLOAD_TYPE_AUDIO, RTP_PAYLOAD_TYPE_AUDIO_FEC,
};

verus! {

/// The payloads that a host sent.
pub struct SentAudio {
    /// By sequence number.
    pub data: spec_fn(u16) -> Seq<u8>,
    /// By the sequence number that the block starts at, and whether it is the
    /// second parity packet of the block.
    pub parity: spec_fn(u16, bool) -> Seq<u8>,
}

impl SentAudio {
    /// The shards of the block that starts at `base`, data first.
    pub open spec fn block(self, base: u16) -> Seq<Seq<u8>> {
        seq![
            (self.data)(in_block(base, 0)),
            (self.data)(in_block(base, 1)),
            (self.data)(in_block(base, 2)),
            (self.data)(in_block(base, 3)),
            (self.parity)(base, false),
            (self.parity)(base, true),
        ]
    }

    /// The parity of every block is that of its data.
    pub open spec fn wf(self) -> bool {
        forall|base: u16|
            base as int % RTP_AUDIO_DATA_SHARDS as int == 0 ==> is_codeword(
                audio_code(),
                #[trigger] self.block(base),
            )
    }
}

/// Whether the payload of a parity packet is as it was sent.
pub open spec fn fec_as_sent(packet: FecView, sent: SentAudio) -> bool {
    packet.payload == (sent.parity)(
        packet.header.base_sequence_number,
        packet.header.fec_shard_index > 0,
    )
}

/// Whether two packets both are the first parity packet of the same block.
pub open spec fn same_first_parity(a: AudioFecHeader, b: AudioFecHeader) -> bool {
    a.base_sequence_number == b.base_sequence_number && a.fec_shard_index == 0
        && b.fec_shard_index == 0
}

/// Whether everything that is stored is as it was sent, and no first parity
/// packet of a block is stored twice.
pub open spec fn as_sent(view: AudioView, sent: SentAudio) -> bool {
    &&& forall|number: u16| #[trigger]
        view.data.contains_key(number) ==> view.data[number].payload == (sent.data)(number)
    &&& forall|i: int| 0 <= i < view.fec.len() ==> fec_as_sent(#[trigger] view.fec[i], sent)
    &&& forall|i: int, j: int|
        0 <= i < j < view.fec.len() ==> !same_first_parity(
            #[trigger] view.fec[i].header,
            #[trigger] view.fec[j].header,
        )
}

/// Whether a parity packet is the first one of a block whose first one is
/// already stored.
pub open spec fn repeats_first_parity(view: AudioView, header: AudioFecHeader) -> bool {
    exists|i: int|
        0 <= i < view.fec.len() && same_first_parity(#[trigger] view.fec[i].header, header)
}

/// Whether a datagram carries what the host sent under its numbers, and is not
/// a first parity packet that is already stored.
pub open spec fn datagram_as_sent(view: AudioView, bytes: Seq<u8>, sent: SentAudio) -> bool {
    let rtp = RtpAudioHeader::parsed(bytes, 0);
    if bytes.len() < RTP_AUDIO_HEADER_SIZE {
        true
    } else if rtp.packet_type == RTP_PAYLOAD_TYPE_AUDIO {
        bytes.skip(RTP_AUDIO_HEADER_SIZE as int) == (sent.data)(rtp.sequence_number)
    } else if rtp.packet_type == RTP_PAYLOAD_TYPE_AUDIO_FEC && bytes.len() >= RTP_AUDIO_HEADER_SIZE
        + AUDIO_FEC_HEADER_SIZE {
        let header = AudioFecHeader::parsed(bytes, RTP_AUDIO_HEADER_SIZE as int);
        &&& fec_as_sent(
            FecView {
                header,
                payload: bytes.skip(RTP_AUDIO_HEADER_SIZE + AUDIO_FEC_HEADER_SIZE),
            },
            sent,
        )
        &&& !repeats_first_parity(view, header)
    } else {
        true
    }
}

} // verus!
