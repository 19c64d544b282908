//! What an audio depayloader holds and does, stated mathematically.

use vstd::prelude::*;

use crate::audio::crypto::{CryptoError, SunshineEncryption};
use crate::audio::fec::{audio_code, present, reconstructed, shard_fault, FecError};
use crate::audio::galois::{is_codeword, is_part_of};
use crate::audio::packet::{
    AudioFecHeader, RtpAudioHeader, AUDIO_FEC_HEADER_SIZE, RTP_AUDIO_DATA_SHARDS,
    RTP_AUDIO_HEADER_SIZE, RTP_AUDIO_TOTAL_SHARDS, RTP_PAYLOAD_TYPE_AUDIO,
    RTP_PAYLOAD_TYPE_AUDIO_FEC,
};
use crate::search::{first_where, lemma_first_where_meaning};
use crate::time::MILLISECOND;

verus! {

/// Why a depayloader refused a packet or could not give out a frame.
#[derive(Debug, Clone, Copy, PartialEq, Eq, Structural)]
pub enum AudioDepayloaderError {
    BufferTooSmall,
    ReedSolomon(FecError),
    Crypto(CryptoError),
}

/// A stored data packet.
pub struct DataView {
    pub timestamp: u32,
    pub payload: Seq<u8>,
}

/// A stored parity packet.
pub struct FecView {
    pub header: AudioFecHeader,
    pub payload: Seq<u8>,
}

/// A frame as it is given out; the time is in nanoseconds.
pub struct FrameView {
    pub timestamp: u64,
    pub buffer: Seq<u8>,
}

/// All that the behaviour of a depayloader depends on.
#[verifier::ext_equal]
pub struct AudioView {
    pub encryption: Option<SunshineEncryption>,
    /// The sequence number of the packet that is given out next.
    pub current: u16,
    pub data: Map<u16, DataView>,
    pub fec: Seq<FecView>,
    pub fec_enabled: bool,
}

/// How many steps forward lead from one sequence number to another; sequence
/// numbers wrap around.
pub open spec fn distance(from: u16, to: u16) -> int {
    (to - from) % 0x1_0000
}

/// Whether `number` comes before `current`, that is, lies in the half of all
/// sequence numbers that is behind it.
pub open spec fn is_behind(number: u16, current: u16) -> bool {
    distance(current, number) >= 0x8000
}

/// Whether one parity packet is stored before another: by the block it
/// protects, then by its place in the block.
pub open spec fn fec_before(a: AudioFecHeader, b: AudioFecHeader) -> bool {
    a.base_sequence_number < b.base_sequence_number || (a.base_sequence_number
        == b.base_sequence_number && a.fec_shard_index < b.fec_shard_index)
}

/// Parity packets are stored in order.
pub open spec fn fec_sorted(fec: Seq<FecView>) -> bool {
    forall|i: int, j: int|
        0 <= i < j < fec.len() ==> !fec_before(#[trigger] fec[j].header, #[trigger] fec[i].header)
}

/// Every stored parity packet protects a block that starts at a multiple of the
/// block length.
pub open spec fn fec_aligned(fec: Seq<FecView>) -> bool {
    forall|i: int|
        0 <= i < fec.len() ==> #[trigger] fec[i].header.base_sequence_number as int
            % RTP_AUDIO_DATA_SHARDS as int == 0
}

/// The order in which parity is stored when `packet` is added.
pub open spec fn fec_inserted(fec: Seq<FecView>, packet: FecView) -> Seq<FecView> {
    fec.insert(
        first_where(fec, |other: FecView| !fec_before(other.header, packet.header)) as int,
        packet,
    )
}

/// Adding parity keeps the order.
pub proof fn lemma_inserted_keeps_order(fec: Seq<FecView>, packet: FecView)
    requires
        fec_sorted(fec),
    ensures
        fec_sorted(fec_inserted(fec, packet)),
        fec_aligned(fec) && packet.header.base_sequence_number as int % RTP_AUDIO_DATA_SHARDS as int
            == 0 ==> fec_aligned(fec_inserted(fec, packet)),
{
    let pred = |other: FecView| !fec_before(other.header, packet.header);
    let at = first_where(fec, pred) as int;
    lemma_first_where_meaning(fec, pred);
    let out = fec_inserted(fec, packet);
    assert forall|i: int, j: int| 0 <= i < j < out.len() implies !fec_before(
        #[trigger] out[j].header,
        #[trigger] out[i].header,
    ) by {
        if i < at && j == at {
            assert(!pred(fec[i]));
        } else if i == at {
            assert(pred(fec[at]));
            assert(out[j] == fec[j - 1]);
            if j - 1 > at {
                assert(!fec_before(fec[j - 1].header, fec[at].header));
            }
        } else if i < at && j > at {
            assert(out[j] == fec[j - 1]);
        } else if i > at {
            assert(out[j] == fec[j - 1]);
            assert(out[i] == fec[i - 1]);
        }
    }
}

/// Where the parity of the block that starts at `base` is stored first.
pub open spec fn block_start(fec: Seq<FecView>, base: u16) -> int {
    first_where(fec, |packet: FecView| packet.header.base_sequence_number == base) as int
}

/// The two parity shards of a block as far as they are stored. A first packet
/// that is not the first shard of the block counts as the second.
pub open spec fn parity_of_block(fec: Seq<FecView>, base: u16) -> (
    Option<FecView>,
    Option<FecView>,
) {
    let at = block_start(fec, base);
    if at >= fec.len() {
        (None, None)
    } else if fec[at].header.fec_shard_index > 0 {
        (None, Some(fec[at]))
    } else if at + 1 < fec.len() && fec[at + 1].header.base_sequence_number == base {
        (Some(fec[at]), Some(fec[at + 1]))
    } else {
        (Some(fec[at]), None)
    }
}

/// The sequence number of the `i`th data packet of a block.
pub open spec fn in_block(base: u16, i: int) -> u16 {
    (base + i) as u16
}

pub open spec fn data_payload(data: Map<u16, DataView>, number: u16) -> Option<Seq<u8>> {
    if data.contains_key(number) {
        Some(data[number].payload)
    } else {
        None
    }
}

pub open spec fn fec_payload(packet: Option<FecView>) -> Option<Seq<u8>> {
    match packet {
        Some(packet) => Some(packet.payload),
        None => None,
    }
}

/// The shards of a block, data first.
pub open spec fn block_shards(
    data: Map<u16, DataView>,
    fec: Seq<FecView>,
    base: u16,
) -> Seq<Option<Seq<u8>>> {
    seq![
        data_payload(data, in_block(base, 0)),
        data_payload(data, in_block(base, 1)),
        data_payload(data, in_block(base, 2)),
        data_payload(data, in_block(base, 3)),
        fec_payload(parity_of_block(fec, base).0),
        fec_payload(parity_of_block(fec, base).1),
    ]
}

/// The first data packet of a block, other than the very first, that is stored.
pub open spec fn later_packet(data: Map<u16, DataView>, base: u16) -> int {
    if data.contains_key(in_block(base, 1)) {
        1
    } else if data.contains_key(in_block(base, 2)) {
        2
    } else {
        3
    }
}

/// By how much timestamps grow from one packet of a block to the next, judged
/// by one stored packet.
pub open spec fn timestamp_step(
    data: Map<u16, DataView>,
    base: u16,
    base_timestamp: u32,
) -> int {
    let k = later_packet(data, base);
    let timestamp = data[in_block(base, k)].timestamp;
    if timestamp < base_timestamp {
        0
    } else {
        (timestamp - base_timestamp) / k
    }
}

/// The packets after a block was reconstructed: those that were missing are
/// filled in, those that were there are kept.
pub open spec fn filled(
    data: Map<u16, DataView>,
    base: u16,
    base_timestamp: u32,
    shards: Seq<Option<Seq<u8>>>,
) -> Map<u16, DataView> {
    Map::new(
        |number: u16|
            data.contains_key(number) || base <= number < base + RTP_AUDIO_DATA_SHARDS,
        |number: u16|
            if data.contains_key(number) {
                data[number]
            } else {
                DataView {
                    timestamp: ((base_timestamp + timestamp_step(data, base, base_timestamp) * (
                    number - base)) % 0x1_0000_0000) as u32,
                    payload: shards[number - base].unwrap(),
                }
            },
    )
}

/// What trying to reconstruct a block does, and whether all its data is there
/// afterwards.
///
/// Any four shards are enough; they are refused only if one is empty or if they
/// are not equally long.
pub open spec fn after_reconstruction(view: AudioView, base: u16) -> (
    AudioView,
    Result<bool, AudioDepayloaderError>,
) {
    let at = block_start(view.fec, base);
    let shards = block_shards(view.data, view.fec, base);
    if !view.fec_enabled || at >= view.fec.len() || present(
        shards,
        RTP_AUDIO_TOTAL_SHARDS as nat,
    ) < RTP_AUDIO_DATA_SHARDS {
        (view, Ok(false))
    } else if present(shards, RTP_AUDIO_DATA_SHARDS as nat) == RTP_AUDIO_DATA_SHARDS {
        (view, Ok(true))
    } else {
        match shard_fault(audio_code(), shards) {
            Some(error) => (view, Err(AudioDepayloaderError::ReedSolomon(error))),
            None => (
                AudioView {
                    data: filled(
                        view.data,
                        base,
                        view.fec[at].header.base_timestamp,
                        reconstructed(audio_code(), shards)->Ok_0,
                    ),
                    ..view
                },
                Ok(true),
            ),
        }
    }
}

/// Forgets whether a block is complete.
pub open spec fn as_unit(result: Result<bool, AudioDepayloaderError>) -> Result<
    (),
    AudioDepayloaderError,
> {
    match result {
        Ok(_) => Ok(()),
        Err(error) => Err(error),
    }
}

/// What a data packet does: it is dropped if its turn has passed; otherwise it
/// is stored, and completes the block that it belongs to if it can.
pub open spec fn after_data(view: AudioView, number: u16, packet: DataView) -> (
    AudioView,
    Result<(), AudioDepayloaderError>,
) {
    if is_behind(number, view.current) {
        (view, Ok(()))
    } else {
        let stored = AudioView { data: view.data.insert(number, packet), ..view };
        let at = block_containing(view.fec, number);
        if at >= view.fec.len() {
            (stored, Ok(()))
        } else {
            let (after, result) = after_reconstruction(
                stored,
                view.fec[at].header.base_sequence_number,
            );
            (after, as_unit(result))
        }
    }
}

/// Where parity for the data packet `number` is stored first.
pub open spec fn block_containing(fec: Seq<FecView>, number: u16) -> int {
    first_where(
        fec,
        |packet: FecView|
            distance(packet.header.base_sequence_number, number) < RTP_AUDIO_DATA_SHARDS,
    ) as int
}

/// What a parity packet does: blocks that do not start at a multiple of their
/// length turn error correction off for good; parity for a block that has
/// passed is dropped; other parity is stored, and completes its block if it
/// can.
pub open spec fn after_fec(view: AudioView, packet: FecView) -> (
    AudioView,
    Result<(), AudioDepayloaderError>,
) {
    if !view.fec_enabled {
        (view, Ok(()))
    } else {
        let base = packet.header.base_sequence_number;
        let checked = AudioView {
            fec_enabled: base as int % RTP_AUDIO_DATA_SHARDS as int == 0,
            ..view
        };
        if distance(view.current, base.wrapping_add(RTP_AUDIO_TOTAL_SHARDS as u16)) >= 0x8000 {
            (checked, Ok(()))
        } else {
            let (after, result) = after_reconstruction(
                AudioView { fec: fec_inserted(view.fec, packet), ..checked },
                base,
            );
            (after, as_unit(result))
        }
    }
}

/// What a datagram does. One that is shorter than its header is an error;
/// others that are not audio or are cut off are ignored.
pub open spec fn after_packet(view: AudioView, bytes: Seq<u8>) -> (
    AudioView,
    Result<(), AudioDepayloaderError>,
) {
    if bytes.len() < RTP_AUDIO_HEADER_SIZE {
        (view, Err(AudioDepayloaderError::BufferTooSmall))
    } else {
        let rtp = RtpAudioHeader::parsed(bytes, 0);
        if rtp.packet_type == RTP_PAYLOAD_TYPE_AUDIO {
            after_data(
                view,
                rtp.sequence_number,
                DataView {
                    timestamp: rtp.timestamp,
                    payload: bytes.skip(RTP_AUDIO_HEADER_SIZE as int),
                },
            )
        } else if rtp.packet_type == RTP_PAYLOAD_TYPE_AUDIO_FEC && bytes.len()
            >= RTP_AUDIO_HEADER_SIZE + AUDIO_FEC_HEADER_SIZE {
            after_fec(
                view,
                FecView {
                    header: AudioFecHeader::parsed(bytes, RTP_AUDIO_HEADER_SIZE as int),
                    payload: bytes.skip(RTP_AUDIO_HEADER_SIZE + AUDIO_FEC_HEADER_SIZE),
                },
            )
        } else {
            (view, Ok(()))
        }
    }
}

/// The state after a datagram was stored, if it is, and before anything is
/// recovered.
pub open spec fn with_datagram(view: AudioView, bytes: Seq<u8>) -> AudioView {
    let rtp = RtpAudioHeader::parsed(bytes, 0);
    if bytes.len() < RTP_AUDIO_HEADER_SIZE {
        view
    } else if rtp.packet_type == RTP_PAYLOAD_TYPE_AUDIO {
        with_data(
            view,
            rtp.sequence_number,
            DataView {
                timestamp: rtp.timestamp,
                payload: bytes.skip(RTP_AUDIO_HEADER_SIZE as int),
            },
        )
    } else if rtp.packet_type == RTP_PAYLOAD_TYPE_AUDIO_FEC && bytes.len() >= RTP_AUDIO_HEADER_SIZE
        + AUDIO_FEC_HEADER_SIZE {
        with_fec(
            view,
            FecView {
                header: AudioFecHeader::parsed(bytes, RTP_AUDIO_HEADER_SIZE as int),
                payload: bytes.skip(RTP_AUDIO_HEADER_SIZE + AUDIO_FEC_HEADER_SIZE),
            },
        )
    } else {
        view
    }
}

/// The state after a data packet was stored, if it is.
pub open spec fn with_data(view: AudioView, number: u16, packet: DataView) -> AudioView {
    if is_behind(number, view.current) {
        view
    } else {
        AudioView { data: view.data.insert(number, packet), ..view }
    }
}

/// The state after a parity packet was stored, if it is.
pub open spec fn with_fec(view: AudioView, packet: FecView) -> AudioView {
    let base = packet.header.base_sequence_number;
    if !view.fec_enabled || distance(
        view.current,
        base.wrapping_add(RTP_AUDIO_TOTAL_SHARDS as u16),
    ) >= 0x8000 {
        view
    } else {
        AudioView { fec: fec_inserted(view.fec, packet), ..view }
    }
}

/// Whether the data of a block that is stored is that of a whole block.
pub open spec fn block_agrees(view: AudioView, base: u16, whole: Seq<Seq<u8>>) -> bool {
    forall|i: int|
        0 <= i < RTP_AUDIO_DATA_SHARDS && view.data.contains_key(#[trigger] in_block(base, i))
            ==> view.data[in_block(base, i)].payload == whole[i]
}

/// Whether recovery keeps to what was sent: where the shards of a block are
/// part of a whole block before, its data is that of the whole block after.
pub open spec fn recovers_the_lost(before: AudioView, after: AudioView) -> bool {
    forall|base: u16, whole: Seq<Seq<u8>>|
        base as int % RTP_AUDIO_DATA_SHARDS as int == 0 && is_codeword(audio_code(), whole)
            && #[trigger] is_part_of(block_shards(before.data, before.fec, base), whole)
            ==> block_agrees(after, base, whole)
}

/// The data of a block whose shards are part of a whole block is that of the
/// whole block.
pub proof fn lemma_part_agrees(view: AudioView, base: u16, whole: Seq<Seq<u8>>)
    requires
        is_part_of(block_shards(view.data, view.fec, base), whole),
    ensures
        block_agrees(view, base, whole),
{
    let shards = block_shards(view.data, view.fec, base);
    assert forall|i: int|
        0 <= i < RTP_AUDIO_DATA_SHARDS && view.data.contains_key(
            #[trigger] in_block(base, i),
        ) implies view.data[in_block(base, i)].payload == whole[i] by {
        assert(shards[i] == data_payload(view.data, in_block(base, i)));
        assert(shards[i] is Some);
    }
}

/// Where nothing is recovered, nothing wrong is recovered.
pub proof fn lemma_unchanged_recovers(view: AudioView)
    ensures
        recovers_the_lost(view, view),
{
    assert forall|base: u16, whole: Seq<Seq<u8>>|
        base as int % RTP_AUDIO_DATA_SHARDS as int == 0 && is_codeword(audio_code(), whole)
            && #[trigger] is_part_of(
            block_shards(view.data, view.fec, base),
            whole,
        ) implies block_agrees(view, base, whole) by {
        lemma_part_agrees(view, base, whole);
    }
}

/// Filling one block in leaves the others alone.
pub proof fn lemma_recovery_is_local(
    view: AudioView,
    base: u16,
    base_timestamp: u32,
    shards: Seq<Option<Seq<u8>>>,
    other: u16,
    whole: Seq<Seq<u8>>,
)
    requires
        base as int % RTP_AUDIO_DATA_SHARDS as int == 0,
        other as int % RTP_AUDIO_DATA_SHARDS as int == 0,
        base != other,
        block_agrees(view, other, whole),
    ensures
        block_agrees(
            AudioView { data: filled(view.data, base, base_timestamp, shards), ..view },
            other,
            whole,
        ),
{
    let data = filled(view.data, base, base_timestamp, shards);
    assert forall|i: int|
        0 <= i < RTP_AUDIO_DATA_SHARDS && data.contains_key(
            #[trigger] in_block(other, i),
        ) implies data[in_block(other, i)].payload == whole[i] by {
        assert(in_block(other, i) == other + i);
        assert(view.data.contains_key(in_block(other, i)));
    }
}

/// The data that is kept when `minimum` is the oldest sequence number that is
/// still of use.
pub open spec fn data_from(data: Map<u16, DataView>, minimum: u16) -> Map<u16, DataView> {
    data.filter_keys(|number: u16| !is_behind(number, minimum))
}

/// The parity that is kept when `minimum` is the oldest sequence number that is
/// still of use.
pub open spec fn fec_from(fec: Seq<FecView>, minimum: u16) -> Seq<FecView> {
    fec.filter(|packet: FecView| !is_behind(packet.header.base_sequence_number, minimum))
}

/// Dropping parity keeps what is left in order and aligned.
pub proof fn lemma_filter_keeps_order(fec: Seq<FecView>, keep: spec_fn(FecView) -> bool)
    ensures
        fec_sorted(fec) ==> fec_sorted(fec.filter(keep)),
        fec_aligned(fec) ==> fec_aligned(fec.filter(keep)),
    decreases fec.len(),
{
    reveal(Seq::filter);
    if fec.len() > 0 {
        let rest = fec.drop_last();
        lemma_filter_keeps_order(rest, keep);
        assert forall|i: int| 0 <= i < rest.filter(keep).len() implies rest.contains(
            #[trigger] rest.filter(keep)[i],
        ) by {
            assert(rest.filter(keep).contains(rest.filter(keep)[i]));
            rest.lemma_filter_contains_rev(keep, rest.filter(keep)[i]);
        }
        if fec_sorted(fec) {
            assert(fec_sorted(rest));
            let out = fec.filter(keep);
            assert forall|i: int, j: int| 0 <= i < j < out.len() implies !fec_before(
                #[trigger] out[j].header,
                #[trigger] out[i].header,
            ) by {
                if j >= rest.filter(keep).len() {
                    assert(rest.contains(rest.filter(keep)[i]));
                    let k = choose|k: int| 0 <= k < rest.len() && rest[k] == rest.filter(keep)[i];
                    assert(fec[k] == out[i]);
                    assert(fec[fec.len() - 1] == out[j]);
                }
            }
        }
    }
}

/// What asking for a frame does to the state: the turn passes to the next
/// packet if there was one, and what no block needs any more is dropped.
pub open spec fn after_poll(view: AudioView) -> AudioView {
    let current = if view.data.contains_key(view.current) {
        view.current.wrapping_add(1)
    } else {
        view.current
    };
    let minimum = current.wrapping_sub(RTP_AUDIO_DATA_SHARDS as u16);
    AudioView {
        current,
        data: data_from(view.data, minimum),
        fec: fec_from(view.fec, minimum),
        ..view
    }
}

/// The frame that a stored packet makes, before decryption.
pub open spec fn frame_of(packet: DataView) -> FrameView {
    FrameView { timestamp: (packet.timestamp * MILLISECOND) as u64, buffer: packet.payload }
}

/// Whether `next` is where skipping leads: the stored packet that is the fewest
/// steps ahead, or no change if none is ahead.
pub open spec fn is_skip_target(view: AudioView, next: u16) -> bool {
    if exists|number: u16|
        #[trigger] view.data.contains_key(number) && !is_behind(number, view.current) {
        &&& view.data.contains_key(next)
        &&& !is_behind(next, view.current)
        &&& forall|number: u16| #[trigger]
            view.data.contains_key(number) ==> distance(view.current, next) <= distance(
                view.current,
                number,
            )
    } else {
        next == view.current
    }
}

} // verus!
