//! What holds of an audio depayloader over several calls.

use vstd::prelude::*;

use crate::audio::crypto::{packet_iv, pkcs7_safe_len, CryptoBackend, CryptoError};
use crate::audio::depayloader::{is_polled_frame, parity_is_usable, AudioFrame};
use crate::audio::fec::{audio_code, present, shard_fault, size_fault};
use crate::audio::model::{
    after_packet, after_poll, after_reconstruction, block_shards, block_start, distance, frame_of,
    in_block, is_behind, is_skip_target, later_packet, lemma_filter_keeps_order,
    lemma_inserted_keeps_order, timestamp_step, AudioDepayloaderError, AudioView, DataView, FecView,
};
use crate::audio::packet::{
    AudioFecHeader, RtpAudioHeader, AUDIO_FEC_HEADER_SIZE, RTP_AUDIO_DATA_SHARDS,
    RTP_AUDIO_HEADER_SIZE, RTP_AUDIO_TOTAL_SHARDS, RTP_PAYLOAD_TYPE_AUDIO,
};
use crate::audio::sent::{as_sent, fec_as_sent, same_first_parity, SentAudio};
use crate::search::lemma_first_where;

verus! {

/// Whether a datagram carries the data packet with a sequence number.
pub open spec fn is_data_datagram(bytes: Seq<u8>, number: u16) -> bool {
    &&& bytes.len() >= RTP_AUDIO_HEADER_SIZE
    &&& RtpAudioHeader::parsed(bytes, 0).packet_type == RTP_PAYLOAD_TYPE_AUDIO
    &&& RtpAudioHeader::parsed(bytes, 0).sequence_number == number
}

/// The data packet that a datagram carries.
pub open spec fn packet_of(bytes: Seq<u8>) -> DataView {
    DataView {
        timestamp: RtpAudioHeader::parsed(bytes, 0).timestamp,
        payload: bytes.skip(RTP_AUDIO_HEADER_SIZE as int),
    }
}

/// A data packet that is not late is stored as it is, whatever is recovered
/// along with it, and the turn stays where it was.
pub proof fn law_packet_is_stored(view: AudioView, bytes: Seq<u8>, number: u16)
    requires
        is_data_datagram(bytes, number),
        !is_behind(number, view.current),
    ensures
        after_packet(view, bytes).0.current == view.current,
        after_packet(view, bytes).0.encryption == view.encryption,
        after_packet(view, bytes).0.data.contains_key(number),
        after_packet(view, bytes).0.data[number] == packet_of(bytes),
{
}

/// The packet whose turn it is comes out of the next poll as it went in.
pub proof fn law_packet_in_turn_is_given_out<C: CryptoBackend>(
    view: AudioView,
    bytes: Seq<u8>,
    backend: C,
    frame: Result<Option<AudioFrame>, AudioDepayloaderError>,
)
    requires
        is_data_datagram(bytes, view.current),
        view.encryption is None,
        is_polled_frame(after_packet(view, bytes).0, backend, frame),
    ensures
        frame matches Ok(Some(frame)) && frame@ == frame_of(packet_of(bytes)),
{
    law_packet_is_stored(view, bytes, view.current);
}

/// Receiving something never takes away what is stored, other than by a new
/// packet with the same sequence number.
pub proof fn law_receiving_keeps_packets(view: AudioView, bytes: Seq<u8>, number: u16)
    requires
        view.data.contains_key(number),
        !is_data_datagram(bytes, number),
    ensures
        after_packet(view, bytes).0.data.contains_key(number),
        after_packet(view, bytes).0.data[number] == view.data[number],
{
}

/// A packet that is stored ahead of its turn is kept until its turn comes, if
/// it is not too far ahead.
pub proof fn law_packet_waits_for_its_turn(view: AudioView, number: u16)
    requires
        view.data.contains_key(number),
        distance(after_poll(view).current, number) < 0x8000 - RTP_AUDIO_DATA_SHARDS,
    ensures
        after_poll(view).data.contains_key(number),
        after_poll(view).data[number] == view.data[number],
{
    let minimum = after_poll(view).current.wrapping_sub(RTP_AUDIO_DATA_SHARDS as u16);
    assert(distance(minimum, number) == distance(after_poll(view).current, number)
        + RTP_AUDIO_DATA_SHARDS);
}

/// A packet whose turn has passed changes nothing and is no error.
pub proof fn law_late_packet_is_ignored(view: AudioView, bytes: Seq<u8>, number: u16)
    requires
        is_data_datagram(bytes, number),
        is_behind(number, view.current),
    ensures
        after_packet(view, bytes) == (view, Ok::<(), AudioDepayloaderError>(())),
{
}

/// A packet that was given out is not taken in again.
pub proof fn law_packet_is_given_out_once(view: AudioView, bytes: Seq<u8>)
    requires
        view.data.contains_key(view.current),
        is_data_datagram(bytes, view.current),
    ensures
        after_packet(after_poll(view), bytes) == (after_poll(view), Ok::<
            (),
            AudioDepayloaderError,
        >(())),
{
    assert(distance(view.current.wrapping_add(1), view.current) == 0xFFFF);
}

/// The turn passes to the next packet exactly when a packet was there to give
/// out, whether or not it could be decrypted: one bad packet does not hold up
/// the stream.
pub proof fn law_bad_packet_does_not_hold_up<C: CryptoBackend>(
    view: AudioView,
    backend: C,
    frame: Result<Option<AudioFrame>, AudioDepayloaderError>,
)
    requires
        is_polled_frame(view, backend, frame),
    ensures
        frame matches Ok(None) ==> after_poll(view).current == view.current,
        !(frame matches Ok(None)) ==> after_poll(view).current == view.current.wrapping_add(1),
        frame matches Err(error) ==> error is Crypto && view.encryption is Some,
{
}

/// Something that is done with a depayloader.
pub enum AudioStep {
    /// A datagram is taken in.
    Packet(Seq<u8>),
    /// A frame is asked for.
    Poll,
}

/// The state after some steps.
pub open spec fn after_audio_steps(view: AudioView, steps: Seq<AudioStep>) -> AudioView
    decreases steps.len(),
{
    if steps.len() == 0 {
        view
    } else {
        let before = after_audio_steps(view, steps.drop_last());
        match steps.last() {
            AudioStep::Packet(bytes) => after_packet(before, bytes).0,
            AudioStep::Poll => after_poll(before),
        }
    }
}

/// The sequence numbers of the packets that some steps give out.
pub open spec fn numbers_given(view: AudioView, steps: Seq<AudioStep>) -> Seq<u16>
    decreases steps.len(),
{
    if steps.len() == 0 {
        Seq::empty()
    } else {
        let given = numbers_given(view, steps.drop_last());
        let before = after_audio_steps(view, steps.drop_last());
        if steps.last() is Poll && before.data.contains_key(before.current) {
            given.push(before.current)
        } else {
            given
        }
    }
}

/// A step gives out the packet whose turn it is and passes the turn on, or
/// neither.
proof fn lemma_turn(view: AudioView, steps: Seq<AudioStep>)
    requires
        steps.len() > 0,
    ensures
        ({
            let before = after_audio_steps(view, steps.drop_last());
            let after = after_audio_steps(view, steps);
            let given = numbers_given(view, steps.drop_last());
            ||| numbers_given(view, steps) == given && after.current == before.current
            ||| numbers_given(view, steps) == given.push(before.current) && after.current == (
            before.current + 1) % 0x1_0000
        }),
{
    let before = after_audio_steps(view, steps.drop_last());
    match steps.last() {
        AudioStep::Packet(bytes) => {
            assert(after_packet(before, bytes).0.current == before.current);
        },
        AudioStep::Poll => {
            assert(after_audio_steps(view, steps) == after_poll(before));
        },
    }
}

/// Whatever arrives and in whichever order, packets are given out one after the
/// other, without a gap and none twice.
pub proof fn law_packets_are_given_out_in_order(view: AudioView, steps: Seq<AudioStep>)
    ensures
        forall|i: int|
            0 <= i < numbers_given(view, steps).len() ==> #[trigger] numbers_given(view, steps)[i]
                == (view.current + i) % 0x1_0000,
        after_audio_steps(view, steps).current == (view.current + numbers_given(view, steps).len())
            % 0x1_0000,
    decreases steps.len(),
{
    if steps.len() > 0 {
        let past = steps.drop_last();
        law_packets_are_given_out_in_order(view, past);
        lemma_turn(view, steps);
        let given = numbers_given(view, past);
        let all = numbers_given(view, steps);
        let n = given.len() as int;
        assert(((view.current + n) % 0x1_0000 + 1) % 0x1_0000 == (view.current + (n + 1))
            % 0x1_0000);
        assert forall|i: int| 0 <= i < all.len() implies #[trigger] all[i] == (view.current + i)
            % 0x1_0000 by {
            if i < given.len() {
                assert(all[i] == given[i]);
            }
        }
    }
}

/// After a poll nothing is stored that lies further behind than a block.
pub proof fn law_nothing_old_is_kept(view: AudioView)
    ensures
        forall|number: u16| #[trigger]
            after_poll(view).data.contains_key(number) ==> !is_behind(
                number,
                after_poll(view).current.wrapping_sub(RTP_AUDIO_DATA_SHARDS as u16),
            ),
        forall|i: int|
            0 <= i < after_poll(view).fec.len() ==> !is_behind(
                #[trigger] after_poll(view).fec[i].header.base_sequence_number,
                after_poll(view).current.wrapping_sub(RTP_AUDIO_DATA_SHARDS as u16),
            ),
{
    let minimum = after_poll(view).current.wrapping_sub(RTP_AUDIO_DATA_SHARDS as u16);
    let keep = |packet: FecView| !is_behind(packet.header.base_sequence_number, minimum);
    assert forall|i: int| 0 <= i < after_poll(view).fec.len() implies keep(
        #[trigger] after_poll(view).fec[i],
    ) by {
        view.fec.lemma_filter_pred(keep, i);
    }
}

/// Skipping leads to a packet that the next poll gives out, if there is one
/// ahead.
pub proof fn law_skipping_leads_to_a_packet<C: CryptoBackend>(
    view: AudioView,
    next: u16,
    number: u16,
    backend: C,
    frame: Result<Option<AudioFrame>, AudioDepayloaderError>,
)
    requires
        is_skip_target(view, next),
        view.data.contains_key(number),
        !is_behind(number, view.current),
        is_polled_frame(AudioView { current: next, ..view }, backend, frame),
    ensures
        !(frame matches Ok(None)),
        distance(view.current, next) <= distance(view.current, number),
{
}

/// Error correction that is off stays off.
pub proof fn law_error_correction_stays_off(view: AudioView, bytes: Seq<u8>)
    requires
        !view.fec_enabled,
    ensures
        !after_packet(view, bytes).0.fec_enabled,
        !after_poll(view).fec_enabled,
{
}

/// Parity stays in order, and as long as error correction is on, it is stored
/// for whole blocks only.
pub proof fn law_parity_stays_in_order(view: AudioView, bytes: Seq<u8>)
    requires
        parity_is_usable(view),
    ensures
        parity_is_usable(after_packet(view, bytes).0),
        parity_is_usable(after_poll(view)),
{
    let packet = FecView {
        header: AudioFecHeader::parsed(bytes, RTP_AUDIO_HEADER_SIZE as int),
        payload: bytes.skip(RTP_AUDIO_HEADER_SIZE + AUDIO_FEC_HEADER_SIZE),
    };
    lemma_inserted_keeps_order(view.fec, packet);
    let minimum = after_poll(view).current.wrapping_sub(RTP_AUDIO_DATA_SHARDS as u16);
    lemma_filter_keeps_order(
        view.fec,
        |packet: FecView| !is_behind(packet.header.base_sequence_number, minimum),
    );
}

/// Any four shards of a block, equally long and not empty, complete it.
pub proof fn law_four_shards_complete_a_block(view: AudioView, base: u16)
    requires
        view.fec_enabled,
        base as int % RTP_AUDIO_DATA_SHARDS as int == 0,
        block_start(view.fec, base) < view.fec.len(),
        present(block_shards(view.data, view.fec, base), RTP_AUDIO_TOTAL_SHARDS as nat)
            >= RTP_AUDIO_DATA_SHARDS,
        shard_fault(audio_code(), block_shards(view.data, view.fec, base)) is None,
    ensures
        after_reconstruction(view, base).1 == Ok::<bool, AudioDepayloaderError>(true),
        forall|i: int|
            0 <= i < RTP_AUDIO_DATA_SHARDS ==> after_reconstruction(view, base).0.data.contains_key(
                #[trigger] in_block(base, i),
            ),
{
    reveal_with_fuel(present, 7);
    let shards = block_shards(view.data, view.fec, base);
    assert forall|i: int| 0 <= i < RTP_AUDIO_DATA_SHARDS implies after_reconstruction(
        view,
        base,
    ).0.data.contains_key(#[trigger] in_block(base, i)) by {
        assert(shards[i] is Some == view.data.contains_key(in_block(base, i)));
    }
}

/// A packet that is recovered gets the timestamp that the block starts at plus
/// its share of the distance to the first later packet of the block that is
/// there. If that one seems to be earlier, time stands still.
pub proof fn law_recovered_timestamps(view: AudioView, base: u16, at: int, k: int, i: int)
    requires
        base + 3 <= u16::MAX,
        0 <= at < view.fec.len(),
        view.fec[at].header.base_sequence_number == base,
        forall|j: int|
            0 <= j < at ==> (#[trigger] view.fec[j]).header.base_sequence_number != base,
        1 <= k <= 3,
        view.data.contains_key((base + k) as u16),
        forall|m: int| 1 <= m < k ==> !view.data.contains_key(#[trigger] in_block(base, m)),
        0 <= i <= 3,
        !view.data.contains_key((base + i) as u16),
        after_reconstruction(view, base).0.data.contains_key((base + i) as u16),
    ensures
        ({
            let start = view.fec[at].header.base_timestamp;
            let later = view.data[(base + k) as u16].timestamp;
            let step = if later > start {
                (later - start) / k
            } else {
                0
            };
            after_reconstruction(view, base).0.data[(base + i) as u16].timestamp == (start + step
                * i) % 0x1_0000_0000
        }),
{
    lemma_first_where(
        view.fec,
        |packet: FecView| packet.header.base_sequence_number == base,
        at as nat,
    );
    assert(block_start(view.fec, base) == at);
    assert(in_block(base, 1) == base + 1 && in_block(base, 2) == base + 2 && in_block(base, 3)
        == base + 3);
    assert(later_packet(view.data, base) == k);
    let start = view.fec[at].header.base_timestamp;
    let later = view.data[(base + k) as u16].timestamp;
    assert(timestamp_step(view.data, base, start) == if later > start {
        (later - start) / k
    } else {
        0
    }) by {
        if later == start {
            assert(0int / k == 0);
        }
    }
}

/// Shards of a block that are not equally long, or are empty, are refused, and
/// nothing is recovered from them.
pub proof fn law_unequal_shards_are_refused(view: AudioView, base: u16, i: int, j: int)
    requires
        view.fec_enabled,
        block_start(view.fec, base) < view.fec.len(),
        present(block_shards(view.data, view.fec, base), RTP_AUDIO_TOTAL_SHARDS as nat)
            >= RTP_AUDIO_DATA_SHARDS,
        present(block_shards(view.data, view.fec, base), RTP_AUDIO_DATA_SHARDS as nat)
            < RTP_AUDIO_DATA_SHARDS,
        0 <= i < j < 6,
        block_shards(view.data, view.fec, base)[i] is Some,
        block_shards(view.data, view.fec, base)[j] is Some,
        block_shards(view.data, view.fec, base)[i]->0.len() != block_shards(
            view.data,
            view.fec,
            base,
        )[j]->0.len() || block_shards(view.data, view.fec, base)[i]->0.len() == 0,
    ensures
        after_reconstruction(view, base).0 == view,
        after_reconstruction(view, base).1 matches Err(AudioDepayloaderError::ReedSolomon(_)),
{
    let shards = block_shards(view.data, view.fec, base);
    lemma_size_fault(shards, 0, None, i, j);
}

/// Two shards of different lengths, or an empty one, are a fault.
proof fn lemma_size_fault(
    shards: Seq<Option<Seq<u8>>>,
    at: nat,
    size: Option<nat>,
    i: int,
    j: int,
)
    requires
        at <= j,
        0 <= i < j < shards.len(),
        shards[i] is Some,
        shards[j] is Some,
        shards[i]->0.len() != shards[j]->0.len() || shards[i]->0.len() == 0,
        at > i ==> size == Some(shards[i]->0.len()),
    ensures
        size_fault(shards, at, size) is Some,
    decreases shards.len() - at,
{
    if let Some(bytes) = shards[at as int] {
        if bytes.len() != 0 && !(size is Some && size != Some(bytes.len())) && at < j {
            lemma_size_fault(shards, at + 1, Some(bytes.len()), i, j);
        }
    } else if at < j {
        lemma_size_fault(shards, at + 1, size, i, j);
    }
}

/// A depayloader that has received nothing holds nothing that was not sent.
pub proof fn law_start_is_as_sent(view: AudioView, sent: SentAudio)
    requires
        view.data == Map::<u16, DataView>::empty(),
        view.fec == Seq::<FecView>::empty(),
    ensures
        as_sent(view, sent),
{
}

/// Taking frames out and skipping leave everything that is stored as it was
/// sent.
pub proof fn law_taking_out_keeps_what_was_sent(view: AudioView, sent: SentAudio, next: u16)
    requires
        as_sent(view, sent),
    ensures
        as_sent(after_poll(view), sent),
        as_sent(AudioView { current: next, ..view }, sent),
{
    let minimum = after_poll(view).current.wrapping_sub(RTP_AUDIO_DATA_SHARDS as u16);
    lemma_filter_keeps_sent(
        view.fec,
        |packet: FecView| !is_behind(packet.header.base_sequence_number, minimum),
        sent,
    );
}

/// Dropping parity leaves the rest as it was sent.
proof fn lemma_filter_keeps_sent(
    fec: Seq<FecView>,
    keep: spec_fn(FecView) -> bool,
    sent: SentAudio,
)
    requires
        forall|i: int| 0 <= i < fec.len() ==> fec_as_sent(#[trigger] fec[i], sent),
        forall|i: int, j: int|
            0 <= i < j < fec.len() ==> !same_first_parity(
                #[trigger] fec[i].header,
                #[trigger] fec[j].header,
            ),
    ensures
        forall|i: int|
            0 <= i < fec.filter(keep).len() ==> fec_as_sent(#[trigger] fec.filter(keep)[i], sent),
        forall|i: int, j: int|
            0 <= i < j < fec.filter(keep).len() ==> !same_first_parity(
                #[trigger] fec.filter(keep)[i].header,
                #[trigger] fec.filter(keep)[j].header,
            ),
    decreases fec.len(),
{
    reveal(Seq::filter);
    if fec.len() > 0 {
        let rest = fec.drop_last();
        assert forall|i: int, j: int| 0 <= i < j < rest.len() implies !same_first_parity(
            #[trigger] rest[i].header,
            #[trigger] rest[j].header,
        ) by {
            assert(fec[i] == rest[i] && fec[j] == rest[j]);
        }
        lemma_filter_keeps_sent(rest, keep, sent);
        let out = fec.filter(keep);
        let kept = rest.filter(keep);
        assert forall|i: int, j: int| 0 <= i < j < out.len() implies !same_first_parity(
            #[trigger] out[i].header,
            #[trigger] out[j].header,
        ) by {
            if j >= kept.len() {
                assert(kept.contains(kept[i]));
                rest.lemma_filter_contains_rev(keep, kept[i]);
                let k = choose|k: int| 0 <= k < rest.len() && rest[k] == kept[i];
                assert(fec[k] == out[i]);
                assert(fec[fec.len() - 1] == out[j]);
            }
        }
    }
}

/// A frame that is given out carries what the host sent under its number,
/// whether the packet arrived or was recovered.
pub proof fn law_frames_are_what_was_sent<C: CryptoBackend>(
    view: AudioView,
    sent: SentAudio,
    backend: C,
    frame: Result<Option<AudioFrame>, AudioDepayloaderError>,
)
    requires
        as_sent(view, sent),
        is_polled_frame(view, backend, frame),
    ensures
        view.encryption is None ==> (frame matches Ok(Some(frame)) ==> frame@.buffer == (sent.data)(
            view.current,
        )),
        view.encryption matches Some(encryption) ==> (frame matches Ok(Some(frame))
            ==> backend.cbc_plaintext(
            encryption.aes_key,
            packet_iv(encryption.aes_iv, view.current),
            (sent.data)(view.current),
            pkcs7_safe_len((sent.data)(view.current).len() as int) as nat,
        ) == Ok::<Seq<u8>, CryptoError>(frame@.buffer)),
{
}

} // verus!
