//! What each call of an audio depayloader comes to.

use vstd::prelude::*;

use crate::audio::block::lemma_sizes_agree;
use crate::audio::crypto::{
    iv_of_packet, packet_iv, pkcs7_safe_len, round_to_pkcs7_safe_len, AesIv, CryptoBackend,
    CryptoError, SunshineEncryption,
};
use crate::audio::depayloader::{
    decrypted_frame, parity_is_usable, AudioDepayloader, AudioDepayloaderConfig, AudioFrame,
    DataPacket,
};
use crate::audio::fec::{audio_code, present, size_fault};
use crate::audio::galois::{is_codeword, is_part_of};
use crate::audio::model::{
    after_data, after_fec, after_reconstruction, block_agrees, block_containing, block_shards,
    block_start, distance, fec_before, fec_inserted, fec_sorted, in_block, is_behind,
    lemma_inserted_keeps_order, parity_of_block, with_datagram, AudioDepayloaderError, AudioView,
    DataView, FecView,
};
use crate::audio::packet::{AudioFecHeader, RtpAudioHeader, RTP_AUDIO_DATA_SHARDS};
use crate::audio::wire::{
    carries_data, carries_parity, lemma_carries_data, lemma_carries_parity, number_of_four,
};
use crate::bytes::be_bytes;
use crate::search::{first_where, lemma_first_where_meaning};

verus! {

/// How many packets lie between two sequence numbers, which wrap around.
pub open spec fn packets_between(from: int, to: int) -> int {
    (to - from) % 0x1_0000
}

/// A new depayloader has received nothing and starts with sequence number zero;
/// it is encrypted and corrects errors as it was set up.
pub proof fn law_new_depayloader_is_as_set_up<C: CryptoBackend>(
    config: AudioDepayloaderConfig,
    backend: C,
    depayloader: AudioDepayloader<C>,
)
    requires
        call_ensures(AudioDepayloader::<C>::new, (config, backend), depayloader),
    ensures
        depayloader.backend() == backend,
        depayloader@.current == 0,
        depayloader@.encryption == config.encryption,
        depayloader@.fec_enabled == config.fec,
        depayloader@.fec.len() == 0,
        forall|number: u16| !#[trigger] depayloader@.data.contains_key(number),
{
}

/// A data packet whose turn has not passed is stored as it was sent. The turn
/// stays where it is, and so do parity and all other packets.
pub proof fn law_data_is_stored_as_sent<C: CryptoBackend>(
    depayloader: &mut AudioDepayloader<C>,
    bytes: &[u8],
    number: u16,
    timestamp: u32,
    payload: Seq<u8>,
    result: Result<(), AudioDepayloaderError>,
    other: u16,
)
    requires
        call_ensures(AudioDepayloader::<C>::handle_packet, (depayloader, bytes), result),
        carries_data(bytes@, number, timestamp, payload),
        packets_between(old(depayloader)@.current as int, number as int) < 0x8000,
    ensures
        final(depayloader)@.data.contains_key(number),
        final(depayloader)@.data[number] == (DataView { timestamp, payload }),
        other != number && old(depayloader)@.data.contains_key(other) ==> {
            &&& final(depayloader)@.data.contains_key(other)
            &&& final(depayloader)@.data[other] == old(depayloader)@.data[other]
        },
        final(depayloader)@ == (AudioView { data: final(depayloader)@.data, ..old(depayloader)@ }),
        final(depayloader).backend() == old(depayloader).backend(),
{
    lemma_carries_data(bytes@, number, timestamp, payload);
}

/// A data packet whose turn has passed changes nothing, and is no error.
pub proof fn law_late_data_changes_nothing<C: CryptoBackend>(
    depayloader: &mut AudioDepayloader<C>,
    bytes: &[u8],
    number: u16,
    timestamp: u32,
    payload: Seq<u8>,
    result: Result<(), AudioDepayloaderError>,
)
    requires
        call_ensures(AudioDepayloader::<C>::handle_packet, (depayloader, bytes), result),
        carries_data(bytes@, number, timestamp, payload),
        packets_between(old(depayloader)@.current as int, number as int) >= 0x8000,
    ensures
        result is Ok,
        final(depayloader)@ == old(depayloader)@,
{
    lemma_carries_data(bytes@, number, timestamp, payload);
}

/// As long as errors are corrected, parity of a block that starts at a multiple
/// of four and has not passed is stored, whether or not the stream is encrypted,
/// and no other parity is lost. The turn stays where it is, and every packet is
/// kept.
pub proof fn law_parity_is_stored_as_sent<C: CryptoBackend>(
    depayloader: &mut AudioDepayloader<C>,
    bytes: &[u8],
    index: u8,
    base: u16,
    timestamp: u32,
    payload: Seq<u8>,
    result: Result<(), AudioDepayloaderError>,
    number: u16,
)
    requires
        call_ensures(AudioDepayloader::<C>::handle_packet, (depayloader, bytes), result),
        carries_parity(bytes@, index, base, timestamp, payload),
        old(depayloader)@.fec_enabled,
        base as int % 4 == 0,
        packets_between(old(depayloader)@.current as int, base + 6) < 0x8000,
    ensures
        exists|at: int, packet: FecView|
            {
                &&& 0 <= at <= old(depayloader)@.fec.len()
                &&& final(depayloader)@.fec == #[trigger] old(depayloader)@.fec.insert(at, packet)
                &&& packet.header.fec_shard_index == index
                &&& packet.header.base_sequence_number == base
                &&& packet.header.base_timestamp == timestamp
                &&& packet.payload == payload
            },
        old(depayloader)@.data.contains_key(number) ==> final(depayloader)@.data.contains_key(
            number,
        ) && final(depayloader)@.data[number] == old(depayloader)@.data[number],
        final(depayloader)@ == (AudioView {
            data: final(depayloader)@.data,
            fec: final(depayloader)@.fec,
            ..old(depayloader)@
        }),
        final(depayloader).backend() == old(depayloader).backend(),
{
    lemma_carries_parity(bytes@, index, base, timestamp, payload);
    let fec = old(depayloader)@.fec;
    let packet = FecView {
        header: AudioFecHeader::parsed(bytes@, 12),
        payload: bytes@.skip(24),
    };
    let pred = |other: FecView| !fec_before(other.header, packet.header);
    let at = first_where(fec, pred) as int;
    lemma_first_where_meaning(fec, pred);
    assert(final(depayloader)@.fec == fec_inserted(fec, packet));
    assert(final(depayloader)@.fec == fec.insert(at, packet));
}

/// Parity is ignored if errors are not corrected or its block has passed. A
/// block that does not start at a multiple of four turns error correction off.
pub proof fn law_parity_that_is_of_no_use<C: CryptoBackend>(
    depayloader: &mut AudioDepayloader<C>,
    bytes: &[u8],
    index: u8,
    base: u16,
    timestamp: u32,
    payload: Seq<u8>,
    result: Result<(), AudioDepayloaderError>,
)
    requires
        call_ensures(AudioDepayloader::<C>::handle_packet, (depayloader, bytes), result),
        carries_parity(bytes@, index, base, timestamp, payload),
    ensures
        !old(depayloader)@.fec_enabled ==> result is Ok && final(depayloader)@ == old(depayloader)@,
        packets_between(old(depayloader)@.current as int, base + 6) >= 0x8000 ==> result is Ok
            && final(depayloader)@ == (AudioView {
            fec_enabled: final(depayloader)@.fec_enabled,
            ..old(depayloader)@
        }),
        base as int % 4 != 0 ==> {
            &&& !final(depayloader)@.fec_enabled
            &&& result is Ok
            &&& final(depayloader)@.data == old(depayloader)@.data
        },
        base as int % 4 == 0 ==> final(depayloader)@.fec_enabled == old(depayloader)@.fec_enabled,
{
    lemma_carries_parity(bytes@, index, base, timestamp, payload);
}

/// A datagram that is too short for a header is an error. One that is neither
/// data nor parity, or that is cut off, is ignored. Neither changes anything.
pub proof fn law_foreign_datagrams_change_nothing<C: CryptoBackend>(
    depayloader: &mut AudioDepayloader<C>,
    bytes: &[u8],
    result: Result<(), AudioDepayloaderError>,
)
    requires
        call_ensures(AudioDepayloader::<C>::handle_packet, (depayloader, bytes), result),
    ensures
        bytes@.len() < 12 ==> result == Err::<(), AudioDepayloaderError>(
            AudioDepayloaderError::BufferTooSmall,
        ) && final(depayloader)@ == old(depayloader)@,
        bytes@.len() >= 12 && bytes@[1] != 97 && bytes@[1] != 127 ==> {
            &&& result is Ok
            &&& final(depayloader)@ == old(depayloader)@
        },
        12 <= bytes@.len() < 24 && bytes@[1] == 127 ==> {
            &&& result is Ok
            &&& final(depayloader)@ == old(depayloader)@
        },
{
}

/// Whether a packet lies in the block that parity is for.
pub open spec fn lies_in_block(number: u16, packet: FecView) -> bool {
    packet.header.base_sequence_number <= number < packet.header.base_sequence_number + 4
}

/// A packet that is there and did not arrive was there before, or lies in a
/// block that starts at a multiple of four and of which parity is stored:
/// nothing else is made up.
pub proof fn law_nothing_is_made_up<C: CryptoBackend>(
    depayloader: &mut AudioDepayloader<C>,
    bytes: &[u8],
    result: Result<(), AudioDepayloaderError>,
    number: u16,
)
    requires
        call_ensures(AudioDepayloader::<C>::handle_packet, (depayloader, bytes), result),
        final(depayloader)@.data.contains_key(number),
        !old(depayloader)@.data.contains_key(number),
    ensures
        carries_data(
            bytes@,
            number,
            final(depayloader)@.data[number].timestamp,
            final(depayloader)@.data[number].payload,
        ) || {
            &&& old(depayloader)@.fec_enabled
            &&& exists|i: int|
                0 <= i < final(depayloader)@.fec.len() && lies_in_block(
                    number,
                    #[trigger] final(depayloader)@.fec[i],
                )
        },
{
    let fec = final(depayloader)@.fec;
    let before = old(depayloader)@;
    let rtp = RtpAudioHeader::parsed(bytes@, 0);
    let after = final(depayloader)@;
    if bytes@[1] == 97 && number != rtp.sequence_number {
        let at = block_containing(before.fec, rtp.sequence_number);
        let base = before.fec[at].header.base_sequence_number;
        let start = block_start(fec, base);
        lemma_first_where_meaning(
            fec,
            |packet: FecView| packet.header.base_sequence_number == base,
        );
        assert(fec[start].header.base_sequence_number == base);
    } else if bytes@[1] == 127 {
        let base = AudioFecHeader::parsed(bytes@, 12).base_sequence_number;
        let start = block_start(fec, base);
        lemma_first_where_meaning(
            fec,
            |packet: FecView| packet.header.base_sequence_number == base,
        );
        assert(fec[start].header.base_sequence_number == base);
    }
}

/// A datagram that is long enough is refused only if parity of its block is
/// stored and the code cannot use the shards: never while errors are not
/// corrected.
pub proof fn law_only_the_code_refuses<C: CryptoBackend>(
    depayloader: &mut AudioDepayloader<C>,
    bytes: &[u8],
    error: AudioDepayloaderError,
)
    requires
        call_ensures(
            AudioDepayloader::<C>::handle_packet,
            (depayloader, bytes),
            Err::<(), AudioDepayloaderError>(error),
        ),
        bytes@.len() >= 12,
    ensures
        error is ReedSolomon,
        old(depayloader)@.fec_enabled,
        final(depayloader)@.fec.len() > 0,
{
}

/// How many of the four data packets of a block are there.
pub open spec fn data_there(data: Map<u16, DataView>, base: u16) -> int {
    (if data.contains_key(base) {
        1int
    } else {
        0
    }) + (if data.contains_key((base + 1) as u16) {
        1int
    } else {
        0
    }) + (if data.contains_key((base + 2) as u16) {
        1int
    } else {
        0
    }) + (if data.contains_key((base + 3) as u16) {
        1int
    } else {
        0
    })
}

/// Whether parity of a block is there: its first shard, or a later one.
pub open spec fn has_parity(fec: Seq<FecView>, base: u16, later: bool) -> bool {
    exists|i: int|
        0 <= i < fec.len() && (#[trigger] fec[i]).header.base_sequence_number == base && (
        fec[i].header.fec_shard_index > 0) == later
}

/// How many of the two parity shards of a block are there.
pub open spec fn parity_there(fec: Seq<FecView>, base: u16) -> int {
    (if has_parity(fec, base, false) {
        1int
    } else {
        0
    }) + (if has_parity(fec, base, true) {
        1int
    } else {
        0
    })
}

/// Whether every shard of a block that is there has the same length, and is not
/// empty.
pub open spec fn equally_long(
    data: Map<u16, DataView>,
    fec: Seq<FecView>,
    base: u16,
    len: nat,
) -> bool {
    &&& len > 0
    &&& forall|number: u16|
        base <= number < base + 4 && #[trigger] data.contains_key(number)
            ==> data[number].payload.len() == len
    &&& forall|i: int|
        0 <= i < fec.len() && (#[trigger] fec[i]).header.base_sequence_number == base
            ==> fec[i].payload.len() == len
}

/// The parity that is there is found.
proof fn lemma_parity_is_found(fec: Seq<FecView>, base: u16, len: nat)
    requires
        fec_sorted(fec),
        parity_there(fec, base) > 0,
        forall|i: int|
            0 <= i < fec.len() && (#[trigger] fec[i]).header.base_sequence_number == base
                ==> fec[i].payload.len() == len,
    ensures
        block_start(fec, base) < fec.len(),
        has_parity(fec, base, false) ==> parity_of_block(fec, base).0 is Some,
        has_parity(fec, base, true) ==> parity_of_block(fec, base).1 is Some,
        parity_of_block(fec, base).0 matches Some(packet) ==> packet.payload.len() == len,
        parity_of_block(fec, base).1 matches Some(packet) ==> packet.payload.len() == len,
{
    let pred = |packet: FecView| packet.header.base_sequence_number == base;
    let at = block_start(fec, base);
    lemma_first_where_meaning(fec, pred);
    let some = choose|i: int|
        0 <= i < fec.len() && (#[trigger] fec[i]).header.base_sequence_number == base;
    assert(pred(fec[some]));
    assert(at < fec.len());
    assert(pred(fec[at]));
    if has_parity(fec, base, false) {
        let i = choose|i: int|
            0 <= i < fec.len() && (#[trigger] fec[i]).header.base_sequence_number == base && (
            fec[i].header.fec_shard_index > 0) == false;
        assert(pred(fec[i]));
        assert(at < i ==> !fec_before(fec[i].header, fec[at].header));
        assert(fec[at].header.fec_shard_index == 0);
    }
    if has_parity(fec, base, true) && fec[at].header.fec_shard_index == 0 {
        let i = choose|i: int|
            0 <= i < fec.len() && (#[trigger] fec[i]).header.base_sequence_number == base && (
            fec[i].header.fec_shard_index > 0) == true;
        assert(pred(fec[i]));
        assert(at < i);
        assert(!fec_before(fec[at + 1].header, fec[at].header));
        assert(at + 1 < i ==> !fec_before(fec[i].header, fec[at + 1].header));
        assert(fec[at + 1].header.base_sequence_number == base);
    }
}

/// Trying to recover a block of which four shards are there, one of them parity,
/// gives all its data.
#[verifier::rlimit(60)]
proof fn lemma_block_is_completed(view: AudioView, base: u16, len: nat)
    requires
        view.fec_enabled,
        fec_sorted(view.fec),
        base + 3 <= u16::MAX,
        parity_there(view.fec, base) > 0,
        data_there(view.data, base) + parity_there(view.fec, base) >= 4,
        equally_long(view.data, view.fec, base, len),
    ensures
        after_reconstruction(view, base).1 is Ok,
        data_there(after_reconstruction(view, base).0.data, base) == 4,
{
    reveal_with_fuel(present, 7);
    let shards = block_shards(view.data, view.fec, base);
    lemma_parity_is_found(view.fec, base, len);
    assert(in_block(base, 0) == base && in_block(base, 1) == base + 1 && in_block(base, 2) == base
        + 2 && in_block(base, 3) == base + 3);
    assert forall|j: int| 0 <= j < shards.len() implies (#[trigger] shards[j] matches Some(bytes)
        ==> bytes.len() == len) by {
        assert(j == 0 || j == 1 || j == 2 || j == 3 || j == 4 || j == 5);
    }
    lemma_sizes_agree(shards, 0, None, len);
    assert(present(shards, 6) >= 4);
    assert(size_fault(shards, 0, None) is None);
}

/// A data packet that is the fourth shard completes its block.
#[verifier::rlimit(60)]
proof fn lemma_data_completes(view: AudioView, number: u16, packet: DataView, base: u16, len: nat)
    requires
        view.fec_enabled,
        parity_is_usable(view),
        base as int % 4 == 0,
        base <= number < base + 4,
        !is_behind(number, view.current),
        parity_there(view.fec, base) > 0,
        data_there(view.data.insert(number, packet), base) + parity_there(view.fec, base) >= 4,
        equally_long(view.data.insert(number, packet), view.fec, base, len),
    ensures
        after_data(view, number, packet).1 is Ok,
        data_there(after_data(view, number, packet).0.data, base) == 4,
{
    let stored = AudioView { data: view.data.insert(number, packet), ..view };
    let at = block_containing(view.fec, number);
    let around = |packet: FecView|
        distance(packet.header.base_sequence_number, number) < RTP_AUDIO_DATA_SHARDS;
    lemma_first_where_meaning(view.fec, around);
    let some = choose|i: int|
        0 <= i < view.fec.len() && (#[trigger] view.fec[i]).header.base_sequence_number == base;
    lemma_one_block(number, base, base);
    assert(around(view.fec[some]));
    assert(around(view.fec[at]));
    assert(view.fec[at].header.base_sequence_number as int % 4 == 0);
    lemma_one_block(number, base, view.fec[at].header.base_sequence_number);
    lemma_block_is_completed(stored, base, len);
    let (after, result) = after_reconstruction(stored, base);
    assert(after_data(view, number, packet).0 == after);
    assert(after_data(view, number, packet).1 is Ok);
}

/// A packet lies in one block.
proof fn lemma_one_block(number: u16, base: u16, other: u16)
    requires
        base as int % 4 == 0,
        other as int % 4 == 0,
        base <= number < base + 4,
    ensures
        (distance(other, number) < RTP_AUDIO_DATA_SHARDS) == (other == base),
{
}

/// Parity that is the fourth shard completes its block.
#[verifier::rlimit(60)]
proof fn lemma_parity_completes(view: AudioView, packet: FecView, len: nat)
    requires
        view.fec_enabled,
        parity_is_usable(view),
        packet.header.base_sequence_number as int % 4 == 0,
        packets_between(view.current as int, packet.header.base_sequence_number + 6) < 0x8000,
        ({
            let fec = fec_inserted(view.fec, packet);
            let base = packet.header.base_sequence_number;
            &&& parity_there(fec, base) > 0
            &&& data_there(view.data, base) + parity_there(fec, base) >= 4
            &&& equally_long(view.data, fec, base, len)
        }),
    ensures
        after_fec(view, packet).1 is Ok,
        data_there(after_fec(view, packet).0.data, packet.header.base_sequence_number) == 4,
{
    lemma_inserted_keeps_order(view.fec, packet);
    let stored = AudioView { fec: fec_inserted(view.fec, packet), ..view };
    lemma_block_is_completed(stored, packet.header.base_sequence_number, len);
}

/// Whether a datagram carries a data packet whose turn has not passed, or parity
/// of a block that has not passed; `data` is what is stored with it.
pub open spec fn is_taken_in(
    view: AudioView,
    bytes: Seq<u8>,
    number: u16,
    timestamp: u32,
    payload: Seq<u8>,
    data: Map<u16, DataView>,
) -> bool {
    ||| {
        &&& carries_data(bytes, number, timestamp, payload)
        &&& packets_between(view.current as int, number as int) < 0x8000
        &&& data == view.data.insert(number, DataView { timestamp, payload })
    }
    ||| {
        &&& carries_parity(bytes, bytes[12], number, timestamp, payload)
        &&& packets_between(view.current as int, number + 6) < 0x8000
        &&& data == view.data
    }
}

/// Wherever in the stream a block is, and whether or not the stream is
/// encrypted: as soon as four of its shards are there, one of them parity, all
/// its data is. The last of them to arrive may be data or parity.
pub proof fn law_four_shards_complete_any_block<C: CryptoBackend>(
    depayloader: &mut AudioDepayloader<C>,
    bytes: &[u8],
    result: Result<(), AudioDepayloaderError>,
    base: u16,
    number: u16,
    timestamp: u32,
    payload: Seq<u8>,
    data: Map<u16, DataView>,
    len: nat,
)
    requires
        call_ensures(AudioDepayloader::<C>::handle_packet, (depayloader, bytes), result),
        parity_is_usable(old(depayloader)@),
        old(depayloader)@.fec_enabled,
        base as int % 4 == 0,
        is_taken_in(old(depayloader)@, bytes@, number, timestamp, payload, data),
        bytes@[1] == 97 ==> base <= number < base + 4,
        bytes@[1] == 127 ==> number == base,
        parity_there(final(depayloader)@.fec, base) > 0,
        data_there(data, base) + parity_there(final(depayloader)@.fec, base) >= 4,
        equally_long(data, final(depayloader)@.fec, base, len),
    ensures
        result is Ok,
        final(depayloader)@.data.contains_key(base),
        final(depayloader)@.data.contains_key((base + 1) as u16),
        final(depayloader)@.data.contains_key((base + 2) as u16),
        final(depayloader)@.data.contains_key((base + 3) as u16),
{
    let before = old(depayloader)@;
    if bytes@[1] == 97 {
        lemma_carries_data(bytes@, number, timestamp, payload);
        let packet = DataView { timestamp, payload };
        assert((final(depayloader)@, result) == after_data(before, number, packet));
        assert(final(depayloader)@.fec == before.fec);
        lemma_data_completes(before, number, packet, base, len);
    } else {
        lemma_carries_parity(bytes@, bytes@[12], number, timestamp, payload);
        let packet = FecView {
            header: AudioFecHeader::parsed(bytes@, 12),
            payload: bytes@.skip(24),
        };
        assert((final(depayloader)@, result) == after_fec(before, packet));
        assert(final(depayloader)@.fec == fec_inserted(before.fec, packet));
        lemma_parity_completes(before, packet, len);
    }
}

/// What is recovered of a block is what was sent: if the data that is there and
/// the parity that is found are part of a whole block, so is all its data
/// afterwards.
pub proof fn law_recovered_data_is_what_was_sent<C: CryptoBackend>(
    depayloader: &mut AudioDepayloader<C>,
    bytes: &[u8],
    result: Result<(), AudioDepayloaderError>,
    base: u16,
    number: u16,
    timestamp: u32,
    payload: Seq<u8>,
    data: Map<u16, DataView>,
    whole: Seq<Seq<u8>>,
    i: int,
)
    requires
        call_ensures(AudioDepayloader::<C>::handle_packet, (depayloader, bytes), result),
        old(depayloader)@.fec_enabled,
        base as int % 4 == 0,
        is_taken_in(old(depayloader)@, bytes@, number, timestamp, payload, data),
        is_codeword(audio_code(), whole),
        forall|j: int|
            0 <= j < 4 && data.contains_key((base + j) as u16) ==> data[#[trigger] in_block(
                base,
                j,
            )].payload == whole[j],
        parity_of_block(final(depayloader)@.fec, base).0 matches Some(packet) ==> packet.payload
            == whole[4],
        parity_of_block(final(depayloader)@.fec, base).1 matches Some(packet) ==> packet.payload
            == whole[5],
        0 <= i < 4,
        final(depayloader)@.data.contains_key((base + i) as u16),
    ensures
        final(depayloader)@.data[(base + i) as u16].payload == whole[i],
{
    let before = old(depayloader)@;
    let after = final(depayloader)@;
    let stored = with_datagram(before, bytes@);
    if bytes@[1] == 97 {
        lemma_carries_data(bytes@, number, timestamp, payload);
    } else {
        lemma_carries_parity(bytes@, bytes@[12], number, timestamp, payload);
    }
    assert(stored.data == data);
    assert(stored.fec == after.fec);
    let shards = block_shards(stored.data, stored.fec, base);
    assert(in_block(base, 0) == base && in_block(base, 1) == base + 1 && in_block(base, 2) == base
        + 2 && in_block(base, 3) == base + 3);
    assert(is_part_of(shards, whole)) by {
        assert(shards.len() == whole.len());
    }
    assert(block_agrees(after, base, whole));
    assert(in_block(base, i) == (base + i) as u16);
}

/// What a poll of a stream that is not encrypted gives out: the packet whose
/// turn it is, its timestamp in milliseconds and its payload as it is, or
/// nothing if it is not there.
pub proof fn law_poll_gives_out_the_packet_in_turn<C: CryptoBackend>(
    depayloader: &mut AudioDepayloader<C>,
    frame: Result<Option<AudioFrame>, AudioDepayloaderError>,
)
    requires
        call_ensures(AudioDepayloader::<C>::poll_frame, (depayloader,), frame),
    ensures
        ({
            let view = old(depayloader)@;
            &&& view.data.contains_key(view.current) && view.encryption is None ==> {
                &&& frame matches Ok(Some(frame))
                &&& frame.timestamp == view.data[view.current].timestamp * 1_000_000
                &&& frame.buffer@ == view.data[view.current].payload
            }
            &&& !view.data.contains_key(view.current) ==> frame == Ok::<
                Option<AudioFrame>,
                AudioDepayloaderError,
            >(None)
            &&& final(depayloader)@.current == if view.data.contains_key(view.current) {
                (view.current + 1) % 0x1_0000
            } else {
                view.current as int
            }
        }),
{
}

/// Whether these are the bytes that the initialisation vector of a packet is
/// made of: the number of the stream plus that of the packet, then zeroes.
pub open spec fn is_vector_of(bytes: Seq<u8>, iv: AesIv, number: u16) -> bool {
    &&& bytes.len() == 16
    &&& number_of_four(bytes, 0) == (iv.0 + number) % 0x1_0000_0000
    &&& forall|i: int| 4 <= i < 16 ==> #[trigger] bytes[i] == 0
}

/// Whether a length is the least multiple of sixteen that has room for another.
pub open spec fn has_room_for(room: int, len: int) -> bool {
    &&& room % 16 == 0
    &&& len <= room < len + 16
}

/// Only one sequence of bytes is the vector of a packet.
proof fn lemma_one_vector(a: Seq<u8>, b: Seq<u8>, iv: AesIv, number: u16)
    requires
        is_vector_of(a, iv, number),
        is_vector_of(b, iv, number),
    ensures
        a == b,
{
    assert(a[0] == b[0] && a[1] == b[1] && a[2] == b[2] && a[3] == b[3]);
    assert(a =~= b);
}

/// The vector that is used is that of the packet.
proof fn lemma_vector(iv: AesIv, number: u16, vector: Seq<u8>)
    requires
        is_vector_of(vector, iv, number),
    ensures
        packet_iv(iv, number) == vector,
{
    let bytes = packet_iv(iv, number);
    let counter = ((iv.0 + number) % 0x1_0000_0000) as u32;
    assert(bytes.len() == 16);
    assert(bytes[0] == be_bytes(counter)[0] && bytes[1] == be_bytes(counter)[1]);
    assert(bytes[2] == be_bytes(counter)[2] && bytes[3] == be_bytes(counter)[3]);
    assert(number_of_four(be_bytes(counter), 0) == counter);
    assert(is_vector_of(bytes, iv, number));
    lemma_one_vector(bytes, vector, iv, number);
}

/// The buffer that is used has just enough room.
proof fn lemma_room(room: int, len: int)
    requires
        0 <= len,
        len + 15 <= usize::MAX,
        has_room_for(room, len),
    ensures
        pkcs7_safe_len(len) == room,
{
}

/// What a poll of an encrypted stream gives out: the packet whose turn it is, as
/// the backend decrypts it with the key of the stream and the vector of the
/// packet, or the backend's error. The timestamp is in milliseconds.
pub proof fn law_poll_gives_out_the_packet_decrypted<C: CryptoBackend>(
    depayloader: &mut AudioDepayloader<C>,
    frame: Result<Option<AudioFrame>, AudioDepayloaderError>,
    encryption: SunshineEncryption,
    vector: Seq<u8>,
    room: nat,
)
    requires
        call_ensures(AudioDepayloader::<C>::poll_frame, (depayloader,), frame),
        old(depayloader)@.encryption == Some(encryption),
        old(depayloader)@.data.contains_key(old(depayloader)@.current),
        is_vector_of(vector, encryption.aes_iv, old(depayloader)@.current),
        has_room_for(
            room as int,
            old(depayloader)@.data[old(depayloader)@.current].payload.len() as int,
        ),
        old(depayloader)@.data[old(depayloader)@.current].payload.len() + 15 <= usize::MAX,
    ensures
        ({
            let packet = old(depayloader)@.data[old(depayloader)@.current];
            match old(depayloader).backend().cbc_plaintext(
                encryption.aes_key,
                vector,
                packet.payload,
                room,
            ) {
                Ok(plaintext) => {
                    &&& frame matches Ok(Some(frame))
                    &&& frame.timestamp == packet.timestamp * 1_000_000
                    &&& frame.buffer@ == plaintext
                },
                Err(error) => frame == Err::<Option<AudioFrame>, AudioDepayloaderError>(
                    AudioDepayloaderError::Crypto(error),
                ),
            }
        }),
{
    let packet = old(depayloader)@.data[old(depayloader)@.current];
    lemma_vector(encryption.aes_iv, old(depayloader)@.current, vector);
    lemma_room(room as int, packet.payload.len() as int);
}

/// A poll keeps every packet, and parity of every block, that is not more than
/// four behind the turn, and drops what lies further behind. It changes nothing
/// else.
pub proof fn law_poll_keeps_what_may_be_of_use<C: CryptoBackend>(
    depayloader: &mut AudioDepayloader<C>,
    frame: Result<Option<AudioFrame>, AudioDepayloaderError>,
    number: u16,
    packet: FecView,
)
    requires
        call_ensures(AudioDepayloader::<C>::poll_frame, (depayloader,), frame),
    ensures
        ({
            let before = old(depayloader)@;
            let after = final(depayloader)@;
            let base = packet.header.base_sequence_number;
            &&& after.data.contains_key(number) <==> before.data.contains_key(number)
                && packets_between(after.current - 4, number as int) < 0x8000
            &&& after.data.contains_key(number) ==> after.data[number] == before.data[number]
            &&& after.fec.contains(packet) <==> before.fec.contains(packet) && packets_between(
                after.current - 4,
                base as int,
            ) < 0x8000
            &&& after.encryption == before.encryption
            &&& after.fec_enabled == before.fec_enabled
            &&& final(depayloader).backend() == old(depayloader).backend()
        }),
{
    let before = old(depayloader)@;
    let after = final(depayloader)@;
    let minimum = after.current.wrapping_sub(4);
    let keep = |packet: FecView|
        !is_behind(packet.header.base_sequence_number, minimum);
    assert(after.fec == before.fec.filter(keep));
    assert(minimum == (after.current - 4) % 0x1_0000);
    if after.fec.contains(packet) {
        let i = choose|i: int| 0 <= i < after.fec.len() && after.fec[i] == packet;
        before.fec.lemma_filter_contains_rev(keep, packet);
        before.fec.lemma_filter_pred(keep, i);
    }
    if before.fec.contains(packet) && keep(packet) {
        let i = choose|i: int| 0 <= i < before.fec.len() && before.fec[i] == packet;
        before.fec.lemma_filter_contains(keep, i);
    }
}

/// A data packet that arrives in turn comes out of the next poll as it was sent,
/// with its whole timestamp in milliseconds.
pub proof fn law_data_in_turn_comes_out_as_sent<C: CryptoBackend>(
    depayloader: &mut AudioDepayloader<C>,
    bytes: &[u8],
    timestamp: u32,
    payload: Seq<u8>,
    result: Result<(), AudioDepayloaderError>,
    polling: &mut AudioDepayloader<C>,
    frame: Result<Option<AudioFrame>, AudioDepayloaderError>,
)
    requires
        old(depayloader)@.encryption is None,
        carries_data(bytes@, old(depayloader)@.current, timestamp, payload),
        call_ensures(AudioDepayloader::<C>::handle_packet, (depayloader, bytes), result),
        *old(polling) == *final(depayloader),
        call_ensures(AudioDepayloader::<C>::poll_frame, (polling,), frame),
    ensures
        frame matches Ok(Some(frame)) && frame.timestamp == timestamp * 1_000_000
            && frame.buffer@ == payload,
{
    law_data_is_stored_as_sent(
        depayloader,
        bytes,
        old(depayloader)@.current,
        timestamp,
        payload,
        result,
        0,
    );
    law_poll_gives_out_the_packet_in_turn(polling, frame);
}

/// Skipping moves the turn to the next packet ahead that is stored, or leaves it
/// where it is if there is none. Nothing else changes, and it never fails.
pub proof fn law_skipping_goes_to_the_next_packet<C: CryptoBackend>(
    depayloader: &mut AudioDepayloader<C>,
    result: Result<(), AudioDepayloaderError>,
    number: u16,
)
    requires
        call_ensures(AudioDepayloader::<C>::try_skip_samples, (depayloader,), result),
    ensures
        ({
            let before = old(depayloader)@;
            let after = final(depayloader)@;
            let ahead = |number: u16|
                before.data.contains_key(number) && packets_between(
                    before.current as int,
                    number as int,
                ) < 0x8000;
            &&& result is Ok
            &&& after == (AudioView { current: after.current, ..before })
            &&& ahead(number) ==> ahead(after.current) && packets_between(
                before.current as int,
                after.current as int,
            ) <= packets_between(before.current as int, number as int)
            &&& after.current == before.current || ahead(after.current)
        }),
{
}

/// A frame has the timestamp of its packet, in milliseconds, and its payload.
pub proof fn law_frame_is_that_of_its_packet(packet: DataPacket, frame: AudioFrame)
    requires
        call_ensures(DataPacket::to_frame, (&packet,), frame),
    ensures
        frame.timestamp == packet.timestamp * 1_000_000,
        frame.buffer@ == packet.payload@,
{
}

/// Vectors and buffers for decrypting are as the hosts have them.
pub proof fn law_vectors_and_buffers(
    iv: AesIv,
    number: u16,
    vector: [u8; 16],
    len: usize,
    room: usize,
)
    requires
        call_ensures(iv_of_packet, (iv, number), vector),
        call_ensures(round_to_pkcs7_safe_len, (len,), room),
    ensures
        is_vector_of(vector@, iv, number),
        len + 15 <= usize::MAX ==> has_room_for(room as int, len as int),
        room as int % 16 == 0,
        room + 16 > len,
{
}

/// A decrypted frame keeps its timestamp, and holds as many bytes as the backend
/// says that it wrote; the ciphertext is handed back. An error is handed on.
pub proof fn law_decrypted_frame_holds_what_was_written(
    frame: AudioFrame,
    written: Result<usize, CryptoError>,
    plaintext: Vec<u8>,
    result: Result<(AudioFrame, Vec<u8>), AudioDepayloaderError>,
)
    requires
        call_ensures(decrypted_frame, (frame, written, plaintext), result),
    ensures
        written matches Ok(len) ==> {
            &&& result matches Ok((decrypted, ciphertext))
            &&& decrypted.timestamp == frame.timestamp
            &&& ciphertext@ == frame.buffer@
            &&& len <= plaintext@.len() ==> decrypted.buffer@ == plaintext@.subrange(0, len as int)
            &&& len > plaintext@.len() ==> decrypted.buffer@ == plaintext@
        },
        written matches Err(error) ==> result == Err::<
            (AudioFrame, Vec<u8>),
            AudioDepayloaderError,
        >(AudioDepayloaderError::Crypto(error)),
{
}

} // verus!
