//! Puts audio datagrams back in order and recovers lost ones.

use std::collections::{BTreeMap, VecDeque};

use fec_rs::ReedSolomon;
use vstd::prelude::*;
use vstd::slice::{slice_subrange, slice_to_vec};

use crate::audio::crypto::{
    iv_of_packet, packet_iv, pkcs7_safe_len, round_to_pkcs7_safe_len, written_plaintext,
    CryptoBackend, CryptoError, SunshineEncryption,
};
use crate::audio::fec::{
    audio_code, code_params, create_audio_reed_solomon, present, reconstruct_data, shard_bytes,
};
use crate::audio::galois::{is_codeword, is_part_of, lemma_four_shards_suffice};
use crate::audio::model::{
    after_data, after_fec, after_packet, after_poll, after_reconstruction, block_agrees,
    block_containing, block_shards, block_start, data_from, distance, fec_aligned, fec_before,
    fec_from, fec_inserted, fec_sorted, filled, frame_of, in_block, is_behind, is_skip_target,
    lemma_filter_keeps_order, lemma_inserted_keeps_order, lemma_part_agrees,
    lemma_recovery_is_local, lemma_unchanged_recovers, recovers_the_lost, timestamp_step, with_data,
    with_datagram, with_fec, AudioDepayloaderError, AudioView, DataView, FecView, FrameView,
};
use crate::audio::packet::{
    AudioFecHeader, RtpAudioHeader, AUDIO_FEC_HEADER_SIZE, RTP_AUDIO_DATA_SHARDS,
    RTP_AUDIO_HEADER_SIZE, RTP_AUDIO_TOTAL_SHARDS, RTP_PAYLOAD_TYPE_AUDIO,
    RTP_PAYLOAD_TYPE_AUDIO_FEC,
};
use crate::audio::sent::{
    as_sent, datagram_as_sent, fec_as_sent, repeats_first_parity, same_first_parity, SentAudio,
};
use crate::search::{first_where, lemma_first_where};
use crate::time::MILLISECOND;

verus! {

/// How a stream is set up.
#[derive(Debug)]
pub struct AudioDepayloaderConfig {
    /// Whether lost packets are recovered from parity.
    pub fec: bool,
    /// Use encryption if [Some].
    pub encryption: Option<SunshineEncryption>,
}

/// A frame of Opus data.
#[derive(Debug)]
pub struct AudioFrame {
    /// When the frame is to be played, in nanoseconds since the stream began.
    pub timestamp: u64,
    pub buffer: Vec<u8>,
}

impl View for AudioFrame {
    type V = FrameView;

    open spec fn view(&self) -> FrameView {
        FrameView { timestamp: self.timestamp, buffer: self.buffer@ }
    }
}

/// Copies bytes; unlike a bare `clone`, says that they stay the same.
fn copy_bytes(bytes: &Vec<u8>) -> (copy: Vec<u8>)
    ensures
        copy@ == bytes@,
{
    let copy = bytes.clone();
    assert(copy@ =~= bytes@);
    copy
}

/// A data packet that was received or recovered.
#[derive(Debug)]
pub struct DataPacket {
    pub timestamp: u32,
    pub payload: Vec<u8>,
}

impl View for DataPacket {
    type V = DataView;

    open spec fn view(&self) -> DataView {
        DataView { timestamp: self.timestamp, payload: self.payload@ }
    }
}

impl DataPacket {
    /// The frame that this packet carries; the timestamp counts milliseconds.
    pub fn to_frame(&self) -> (frame: AudioFrame)
        ensures
            frame@ == frame_of(self@),
    {
        AudioFrame {
            timestamp: self.timestamp as u64 * MILLISECOND,
            buffer: copy_bytes(&self.payload),
        }
    }
}

/// A parity packet that was received.
#[derive(Debug)]
struct FecPacket {
    header: AudioFecHeader,
    payload: Vec<u8>,
}

impl View for FecPacket {
    type V = FecView;

    closed spec fn view(&self) -> FecView {
        FecView { header: self.header, payload: self.payload@ }
    }
}

spec fn data_views(data: Map<u16, DataPacket>) -> Map<u16, DataView> {
    data.map_values(|packet: DataPacket| packet@)
}

spec fn fec_views(fec: Seq<FecPacket>) -> Seq<FecView> {
    Seq::new(fec.len(), |i: int| fec[i]@)
}

/// Whether `number` lies in the half of all sequence numbers behind `current`.
fn lies_behind(number: u16, current: u16) -> (behind: bool)
    ensures
        behind == is_behind(number, current),
{
    number.wrapping_sub(current) >= 0x8000
}

/// Drops the data packets that lie behind `minimum`.
fn retain_data(data: &mut BTreeMap<u16, DataPacket>, minimum: u16)
    ensures
        data_views(final(data)@) == data_from(data_views(old(data)@), minimum),
{
    let mut stale: Vec<u16> = Vec::new();
    for number in it: data.keys()
        invariant
            it.seq().unref().to_set() == data@.dom(),
            forall|i: int| 0 <= i < stale@.len() ==> is_behind(#[trigger] stale@[i], minimum),
            forall|i: int|
                0 <= i < it.index() && is_behind(*(#[trigger] it.seq()[i]), minimum)
                    ==> stale@.contains(*it.seq()[i]),
    {
        let ghost before = stale@;
        if lies_behind(*number, minimum) {
            stale.push(*number);
        }
        proof {
            assert forall|i: int|
                0 <= i < it.index() + 1 && is_behind(*(#[trigger] it.seq()[i]), minimum) implies stale@
                .contains(*it.seq()[i]) by {
                if i < it.index() {
                    let at = choose|at: int| 0 <= at < before.len() && before[at] == *it.seq()[i];
                    assert(stale@[at] == before[at]);
                } else {
                    assert(stale@.last() == *it.seq()[i]);
                }
            }
        }
    }
    let ghost all = data@;
    assert forall|number: u16|
        all.contains_key(number) && is_behind(number, minimum) implies stale@.contains(number) by {
        assert(data@.dom().contains(number));
    }
    let mut i: usize = 0;
    while i < stale.len()
        invariant
            i <= stale@.len(),
            forall|j: int| 0 <= j < stale@.len() ==> is_behind(#[trigger] stale@[j], minimum),
            forall|number: u16| #[trigger]
                data@.contains_key(number) ==> all.contains_key(number) && data@[number]
                    == all[number],
            forall|number: u16| #[trigger]
                all.contains_key(number) && !data@.contains_key(number) ==> is_behind(
                    number,
                    minimum,
                ),
            forall|j: int| 0 <= j < i ==> !data@.contains_key(#[trigger] stale@[j]),
        decreases stale@.len() - i,
    {
        data.remove(&stale[i]);
        i = i + 1;
    }
    assert forall|number: u16| data@.contains_key(number) implies !is_behind(number, minimum) by {
        if is_behind(number, minimum) {
            assert(stale@.contains(number));
        }
    }
    assert(data_views(data@) =~= data_from(data_views(all), minimum));
}

/// Drops the parity packets whose block lies behind `minimum`.
fn retain_fec(fec: &mut VecDeque<FecPacket>, minimum: u16)
    ensures
        fec_views(final(fec)@) == fec_from(fec_views(old(fec)@), minimum),
{
    let ghost all = fec_views(fec@);
    let ghost keep = |packet: FecView| !is_behind(packet.header.base_sequence_number, minimum);
    let count: usize = fec.len();
    let mut i: usize = 0;
    assert(all.take(0).filter(keep) =~= Seq::<FecView>::empty()) by {
        reveal(Seq::filter);
    }
    assert(fec_views(fec@) =~= all.skip(0) + all.take(0).filter(keep));
    while i < count
        invariant
            i <= count == all.len(),
            keep == (|packet: FecView| !is_behind(packet.header.base_sequence_number, minimum)),
            fec_views(fec@) == all.skip(i as int) + all.take(i as int).filter(keep),
        decreases count - i,
    {
        let ghost before = fec@;
        let ghost kept = all.take(i as int).filter(keep);
        let ghost first = all[i as int];
        assert(fec_views(before)[0] == first);
        proof {
            reveal(Seq::filter);
            assert(all.take(i + 1).drop_last() =~= all.take(i as int));
            assert(all.take(i + 1).last() == first);
        }
        if let Some(packet) = fec.pop_front() {
            assert(fec_views(fec@) =~= fec_views(before).skip(1));
            assert((all.skip(i as int) + kept).skip(1) =~= all.skip(i + 1) + kept);
            assert(fec_views(fec@) =~= all.skip(i + 1) + kept);
            if !lies_behind(packet.header.base_sequence_number, minimum) {
                let ghost rest = fec@;
                fec.push_back(packet);
                assert(fec_views(fec@) =~= fec_views(rest).push(first));
            }
        }
        assert(fec_views(fec@) =~= all.skip(i + 1) + all.take(i + 1).filter(keep));
        i = i + 1;
    }
    assert(all.take(count as int) =~= all);
    assert(fec_views(fec@) =~= fec_from(all, minimum));
}

/// The timestamp `i` steps after `base`; timestamps wrap around.
fn step_timestamp(base: u32, step: u32, i: u32) -> (timestamp: u32)
    ensures
        timestamp == ((base + step * i) % 0x1_0000_0000) as u32,
{
    proof {
        vstd::arithmetic::div_mod::lemma_add_mod_noop_right(
            base as int,
            step * i,
            0x1_0000_0000,
        );
        assert(step * i >= 0) by (nonlinear_arith);
    }
    base.wrapping_add(step.wrapping_mul(i))
}

/// Finds the first parity packet of the block that starts at `base`.
fn find_block(fec: &VecDeque<FecPacket>, base: u16) -> (at: usize)
    ensures
        at == block_start(fec_views(fec@), base),
        at <= fec@.len(),
        at < fec@.len() ==> fec@[at as int].header.base_sequence_number == base,
{
    let ghost pred = |packet: FecView| packet.header.base_sequence_number == base;
    let mut i: usize = 0;
    while i < fec.len() && fec[i].header.base_sequence_number != base
        invariant
            i <= fec@.len(),
            pred == (|packet: FecView| packet.header.base_sequence_number == base),
            forall|j: int| 0 <= j < i ==> !pred(#[trigger] fec_views(fec@)[j]),
        decreases fec@.len() - i,
    {
        i = i + 1;
    }
    proof {
        lemma_first_where(fec_views(fec@), pred, i as nat);
    }
    i
}

/// Finds the first parity packet whose block contains the packet `number`.
fn find_block_containing(fec: &VecDeque<FecPacket>, number: u16) -> (at: usize)
    ensures
        at == block_containing(fec_views(fec@), number),
        at <= fec@.len(),
{
    let ghost pred = |packet: FecView|
        distance(packet.header.base_sequence_number, number) < RTP_AUDIO_DATA_SHARDS;
    let mut i: usize = 0;
    while i < fec.len() && number.wrapping_sub(fec[i].header.base_sequence_number)
        >= RTP_AUDIO_DATA_SHARDS as u16
        invariant
            i <= fec@.len(),
            pred == (|packet: FecView|
                distance(packet.header.base_sequence_number, number) < RTP_AUDIO_DATA_SHARDS),
            forall|j: int| 0 <= j < i ==> !pred(#[trigger] fec_views(fec@)[j]),
        decreases fec@.len() - i,
    {
        i = i + 1;
    }
    proof {
        lemma_first_where(fec_views(fec@), pred, i as nat);
    }
    i
}

/// Finds where a parity packet belongs, by bisection.
fn find_insertion(fec: &VecDeque<FecPacket>, header: AudioFecHeader) -> (at: usize)
    requires
        fec_sorted(fec_views(fec@)),
    ensures
        at == first_where(
            fec_views(fec@),
            |other: FecView| !fec_before(other.header, header),
        ),
        at <= fec@.len(),
{
    let ghost views = fec_views(fec@);
    let mut low: usize = 0;
    let mut high: usize = fec.len();
    while low < high
        invariant
            low <= high <= fec@.len(),
            views == fec_views(fec@),
            fec_sorted(views),
            forall|j: int| 0 <= j < low ==> fec_before(#[trigger] views[j].header, header),
            forall|j: int|
                high <= j < views.len() ==> !fec_before(#[trigger] views[j].header, header),
        decreases high - low,
    {
        let middle: usize = low + (high - low) / 2;
        let other = fec[middle].header;
        assert(views[middle as int].header == other);
        if other.base_sequence_number < header.base_sequence_number || (other.base_sequence_number
            == header.base_sequence_number && other.fec_shard_index < header.fec_shard_index) {
            low = middle + 1;
        } else {
            high = middle;
        }
    }
    proof {
        lemma_first_where(views, |other: FecView| !fec_before(other.header, header), low as nat);
    }
    low
}

/// The payload of a data packet, if it is there.
fn data_shard(data: &BTreeMap<u16, DataPacket>, number: u16) -> (shard: Option<Vec<u8>>)
    ensures
        shard is Some == data@.contains_key(number),
        shard matches Some(bytes) ==> bytes@ == data@[number].payload@,
{
    match data.get(&number) {
        Some(packet) => Some(copy_bytes(&packet.payload)),
        None => None,
    }
}

/// Recovers the order of audio packets and gives them out one by one.
///
/// Packets that arrive early wait for their turn. Packets that are lost are
/// recovered from parity as soon as enough of their block has arrived.
#[derive(Debug)]
pub struct AudioDepayloader<C> {
    crypto_backend: C,
    encryption: Option<SunshineEncryption>,
    current_sequence_number: u16,
    data_packets: BTreeMap<u16, DataPacket>,
    fec_packets: VecDeque<FecPacket>,
    fec_decoder: Option<ReedSolomon>,
    unencrypt_buffer: Vec<u8>,
}

impl<C> View for AudioDepayloader<C> {
    type V = AudioView;

    closed spec fn view(&self) -> AudioView {
        AudioView {
            encryption: self.encryption,
            current: self.current_sequence_number,
            data: data_views(self.data_packets@),
            fec: fec_views(self.fec_packets@),
            fec_enabled: self.fec_decoder is Some,
        }
    }
}

/// What a depayloader never loses: parity is stored in order, and as long as
/// error correction is on, for whole blocks only.
pub open spec fn parity_is_usable(view: AudioView) -> bool {
    &&& fec_sorted(view.fec)
    &&& view.fec_enabled ==> fec_aligned(view.fec)
}

impl<C: CryptoBackend> AudioDepayloader<C> {
    /// What holds of every depayloader between two calls.
    pub closed spec fn wf(&self) -> bool {
        &&& parity_is_usable(self@)
        &&& self.fec_decoder matches Some(codec) ==> code_params(codec) == audio_code()
    }

    /// The cryptography in use.
    pub closed spec fn backend(&self) -> C {
        self.crypto_backend
    }

    /// A depayloader that has received nothing; the stream starts with sequence
    /// number zero.
    pub fn new(config: AudioDepayloaderConfig, crypto_backend: C) -> (depayloader: Self)
        ensures
            depayloader.wf(),
            depayloader.backend() == crypto_backend,
            depayloader@ == (AudioView {
                encryption: config.encryption,
                current: 0,
                data: Map::empty(),
                fec: Seq::empty(),
                fec_enabled: config.fec,
            }),
    {
        let decoder = if config.fec {
            Some(create_audio_reed_solomon())
        } else {
            None
        };
        let depayloader = AudioDepayloader {
            crypto_backend,
            encryption: config.encryption,
            current_sequence_number: 0,
            data_packets: BTreeMap::new(),
            fec_packets: VecDeque::new(),
            fec_decoder: decoder,
            unencrypt_buffer: Vec::new(),
        };
        assert(depayloader@.data =~= Map::empty());
        assert(depayloader@.fec =~= Seq::empty());
        depayloader
    }

    /// Will try to construct the next frame using the internal buffers.
    ///
    /// A packet is given out once, when its turn comes, whether or not it could
    /// be decrypted.
    pub fn poll_frame(&mut self) -> (frame: Result<Option<AudioFrame>, AudioDepayloaderError>)
        requires
            old(self).wf(),
        ensures
            final(self).wf(),
            final(self).backend() == old(self).backend(),
            final(self)@ == after_poll(old(self)@),
            is_polled_frame(old(self)@, old(self).backend(), frame),
    {
        let sequence_number: u16 = self.current_sequence_number;
        let output = match self.data_packets.get(&sequence_number) {
            Some(packet) => Some(packet.to_frame()),
            None => None,
        };
        if output.is_some() {
            self.current_sequence_number = sequence_number.wrapping_add(1);
        }
        // The minimum sequence number that we need to store for fec reconstruction
        let minimum: u16 = self.current_sequence_number.wrapping_sub(RTP_AUDIO_DATA_SHARDS as u16);
        retain_data(&mut self.data_packets, minimum);
        retain_fec(&mut self.fec_packets, minimum);
        proof {
            lemma_filter_keeps_order(
                old(self)@.fec,
                |packet: FecView| !is_behind(packet.header.base_sequence_number, minimum),
            );
            assert(self@ =~= after_poll(old(self)@));
        }
        match (output, self.encryption) {
            (Some(frame), Some(encryption)) => {
                let iv = iv_of_packet(encryption.aes_iv, sequence_number);
                let mut plaintext: Vec<u8> = Vec::new();
                core::mem::swap(&mut plaintext, &mut self.unencrypt_buffer);
                plaintext.resize(round_to_pkcs7_safe_len(frame.buffer.len()), 0);
                let written = self.crypto_backend.decrypt_aes_cbc(
                    &encryption.aes_key,
                    &iv,
                    frame.buffer.as_slice(),
                    plaintext.as_mut_slice(),
                );
                match decrypted_frame(frame, written, plaintext) {
                    Ok((frame, ciphertext)) => {
                        self.unencrypt_buffer = ciphertext;
                        Ok(Some(frame))
                    },
                    Err(error) => Err(error),
                }
            },
            (output, _) => Ok(output),
        }
    }

    /// Moves on to the nearest packet that is stored, if there is one ahead.
    ///
    /// Nothing that is stored is dropped; [`AudioDepayloader::poll_frame`] then
    /// gives out the packet that was moved to.
    pub fn try_skip_samples(&mut self) -> (result: Result<(), AudioDepayloaderError>)
        requires
            old(self).wf(),
        ensures
            final(self).wf(),
            final(self).backend() == old(self).backend(),
            result is Ok,
            is_skip_target(old(self)@, final(self)@.current),
            final(self)@ == (AudioView { current: final(self)@.current, ..old(self)@ }),
    {
        let current: u16 = self.current_sequence_number;
        let mut nearest: Option<u16> = None;
        for number in it: self.data_packets.keys()
            invariant
                it.seq().unref().to_set() == self.data_packets@.dom(),
                match nearest {
                    Some(best) => {
                        &&& self.data_packets@.contains_key(best)
                        &&& !is_behind(best, current)
                        &&& forall|i: int|
                            0 <= i < it.index() && !is_behind(*(#[trigger] it.seq()[i]), current)
                                ==> distance(current, best) <= distance(current, *it.seq()[i])
                    },
                    None => forall|i: int|
                        0 <= i < it.index() ==> is_behind(*(#[trigger] it.seq()[i]), current),
                },
        {
            proof {
                assert(it.seq().unref()[it.index()] == *number);
                assert(it.seq().unref().to_set().contains(*number));
            }
            if !lies_behind(*number, current) {
                let nearer = match nearest {
                    Some(best) => number.wrapping_sub(current) < best.wrapping_sub(current),
                    None => true,
                };
                if nearer {
                    nearest = Some(*number);
                }
            }
        }
        proof {
            assert(self@.data.dom() =~= self.data_packets@.dom());
        }
        if let Some(number) = nearest {
            self.current_sequence_number = number;
        }
        Ok(())
    }

    /// Will insert this packet into internal buffers.
    ///
    /// What is recovered is what was lost: as long as the datagrams carry what
    /// was sent, everything that is stored is as it was sent.
    pub fn handle_packet(&mut self, packet: &[u8]) -> (result: Result<(), AudioDepayloaderError>)
        requires
            old(self).wf(),
        ensures
            final(self).wf(),
            final(self).backend() == old(self).backend(),
            is_handled(old(self)@, packet@, final(self)@, result),
    {
        proof {
            lemma_unchanged_recovers(self@);
        }
        if packet.len() < RTP_AUDIO_HEADER_SIZE {
            return Err(AudioDepayloaderError::BufferTooSmall);
        }
        let rtp_header = RtpAudioHeader::deserialize(packet, 0);
        if rtp_header.packet_type == RTP_PAYLOAD_TYPE_AUDIO {
            let payload = slice_to_vec(
                slice_subrange(packet, RTP_AUDIO_HEADER_SIZE, packet.len()),
            );
            assert(payload@ =~= packet@.skip(RTP_AUDIO_HEADER_SIZE as int));
            self.handle_data(
                rtp_header.sequence_number,
                DataPacket { timestamp: rtp_header.timestamp, payload },
            )
        } else if rtp_header.packet_type == RTP_PAYLOAD_TYPE_AUDIO_FEC && packet.len()
            >= RTP_AUDIO_HEADER_SIZE + AUDIO_FEC_HEADER_SIZE {
            let header = AudioFecHeader::deserialize(packet, RTP_AUDIO_HEADER_SIZE);
            let payload = slice_to_vec(
                slice_subrange(
                    packet,
                    RTP_AUDIO_HEADER_SIZE + AUDIO_FEC_HEADER_SIZE,
                    packet.len(),
                ),
            );
            assert(payload@ =~= packet@.skip(RTP_AUDIO_HEADER_SIZE + AUDIO_FEC_HEADER_SIZE));
            self.handle_fec(FecPacket { header, payload })
        } else {
            // Not an audio packet, or one that is cut off
            Ok(())
        }
    }

    /// Stores a data packet.
    fn handle_data(&mut self, number: u16, packet: DataPacket) -> (result: Result<
        (),
        AudioDepayloaderError,
    >)
        requires
            old(self).wf(),
        ensures
            final(self).wf(),
            final(self).backend() == old(self).backend(),
            (final(self)@, result) == after_data(old(self)@, number, packet@),
            recovers_the_lost(with_data(old(self)@, number, packet@), final(self)@),
            forall|sent: SentAudio|
                sent.wf() && #[trigger] as_sent(old(self)@, sent) && packet@.payload == (sent.data)(
                    number,
                ) ==> as_sent(final(self)@, sent),
    {
        proof {
            lemma_unchanged_recovers(with_data(self@, number, packet@));
        }
        if lies_behind(number, self.current_sequence_number) {
            // Drop the packet because it is too old
            return Ok(());
        }
        self.data_packets.insert(number, packet);
        assert(self@.data =~= old(self)@.data.insert(number, packet@));
        assert(forall|sent: SentAudio|
            #[trigger] as_sent(old(self)@, sent) && packet@.payload == (sent.data)(number)
                ==> as_sent(self@, sent));
        // Maybe this is a late data packet -> try fec recovery
        let at: usize = find_block_containing(&self.fec_packets, number);
        if at == self.fec_packets.len() {
            return Ok(());
        }
        let base: u16 = self.fec_packets[at].header.base_sequence_number;
        match self.try_reconstruct_fec_block(base) {
            Ok(_) => Ok(()),
            Err(error) => Err(error),
        }
    }

    /// Stores a parity packet.
    fn handle_fec(&mut self, packet: FecPacket) -> (result: Result<(), AudioDepayloaderError>)
        requires
            old(self).wf(),
        ensures
            final(self).wf(),
            final(self).backend() == old(self).backend(),
            (final(self)@, result) == after_fec(old(self)@, packet@),
            recovers_the_lost(with_fec(old(self)@, packet@), final(self)@),
            forall|sent: SentAudio|
                sent.wf() && #[trigger] as_sent(old(self)@, sent) && fec_as_sent(packet@, sent)
                    && !repeats_first_parity(old(self)@, packet@.header) ==> as_sent(
                    final(self)@,
                    sent,
                ),
    {
        proof {
            lemma_unchanged_recovers(self@);
        }
        if self.fec_decoder.is_none() {
            return Ok(());
        }
        let base: u16 = packet.header.base_sequence_number;
        // The FEC blocks must start on a block boundary for our queuing logic to work. This isn't
        // the case for older versions of GeForce Experience (at least 3.13). Disable the FEC logic
        // if this invariant is violated.
        if base % RTP_AUDIO_DATA_SHARDS as u16 != 0 {
            self.fec_decoder = None;
        }
        if base.wrapping_add(RTP_AUDIO_TOTAL_SHARDS as u16).wrapping_sub(
            self.current_sequence_number,
        ) >= 0x8000 {
            // Drop the packet because it is too old
            return Ok(());
        }
        let at: usize = find_insertion(&self.fec_packets, packet.header);
        proof {
            lemma_inserted_keeps_order(old(self)@.fec, packet@);
        }
        self.fec_packets.insert(at, packet);
        assert(self@.fec =~= fec_inserted(old(self)@.fec, packet@));
        proof {
            assert forall|sent: SentAudio|
                #[trigger] as_sent(old(self)@, sent) && fec_as_sent(packet@, sent)
                    && !repeats_first_parity(old(self)@, packet@.header) implies as_sent(
                self@,
                sent,
            ) by {
                let before = old(self)@.fec;
                assert forall|i: int| 0 <= i < self@.fec.len() implies fec_as_sent(
                    #[trigger] self@.fec[i],
                    sent,
                ) by {
                    if i > at {
                        assert(self@.fec[i] == before[i - 1]);
                    }
                }
                assert forall|i: int, j: int|
                    0 <= i < j < self@.fec.len() implies !same_first_parity(
                    #[trigger] self@.fec[i].header,
                    #[trigger] self@.fec[j].header,
                ) by {
                    assert(i < at ==> self@.fec[i] == before[i]);
                    assert(i > at ==> self@.fec[i] == before[i - 1]);
                    assert(j < at ==> self@.fec[j] == before[j]);
                    assert(j > at ==> self@.fec[j] == before[j - 1]);
                }
            }
        }
        // Try to reconstruct data packets using fec
        match self.try_reconstruct_fec_block(base) {
            Ok(_) => Ok(()),
            Err(error) => Err(error),
        }
    }

    /// Recovers the missing data packets of the block that starts at `base`, if
    /// enough of its shards are there. Returns whether its data is complete.
    #[verifier::rlimit(40)]
    fn try_reconstruct_fec_block(&mut self, base: u16) -> (complete: Result<
        bool,
        AudioDepayloaderError,
    >)
        requires
            old(self).wf(),
        ensures
            final(self).wf(),
            final(self).backend() == old(self).backend(),
            (final(self)@, complete) == after_reconstruction(old(self)@, base),
            recovers_the_lost(old(self)@, final(self)@),
            forall|sent: SentAudio|
                sent.wf() && #[trigger] as_sent(old(self)@, sent) ==> as_sent(final(self)@, sent),
    {
        let ghost data = data_views(self.data_packets@);
        let ghost fec = fec_views(self.fec_packets@);
        let ghost expected = block_shards(data, fec, base);
        proof {
            reveal_with_fuel(present, 7);
            lemma_unchanged_recovers(self@);
        }
        if self.fec_decoder.is_none() {
            return Ok(false);
        }
        let at: usize = find_block(&self.fec_packets, base);
        if at == self.fec_packets.len() {
            // At this point we need at least one fec shard to recover the packet
            return Ok(false);
        }
        assert(fec[at as int].header.base_sequence_number == base);
        let header = self.fec_packets[at].header;
        let base_timestamp: u32 = header.base_timestamp;
        let mut fec_shard1: Option<usize> = None;
        let mut fec_shard2: Option<usize> = None;
        if header.fec_shard_index > 0 {
            fec_shard2 = Some(at);
        } else {
            fec_shard1 = Some(at);
            if at + 1 < self.fec_packets.len() && self.fec_packets[at
                + 1].header.base_sequence_number == base {
                fec_shard2 = Some(at + 1);
            }
        }
        let fec_shards: usize = count(fec_shard1.is_some()) + count(fec_shard2.is_some());
        let data_shards: usize = count(self.data_packets.contains_key(&base)) + count(
            self.data_packets.contains_key(&(base + 1)),
        ) + count(self.data_packets.contains_key(&(base + 2))) + count(
            self.data_packets.contains_key(&(base + 3)),
        );
        if data_shards + fec_shards < RTP_AUDIO_DATA_SHARDS {
            // We currently cannot reconstruct using fec because we don't have enough shards
            return Ok(false);
        }
        // No need to reconstruct data, we already have all shards
        if data_shards == RTP_AUDIO_DATA_SHARDS {
            return Ok(true);
        }
        let mut shards: Vec<Option<Vec<u8>>> = Vec::new();
        shards.push(data_shard(&self.data_packets, base));
        shards.push(data_shard(&self.data_packets, base + 1));
        shards.push(data_shard(&self.data_packets, base + 2));
        shards.push(data_shard(&self.data_packets, base + 3));
        shards.push(self.fec_shard(fec_shard1));
        shards.push(self.fec_shard(fec_shard2));
        assert(shard_bytes(shards@) =~= expected);
        let recovered = match &self.fec_decoder {
            Some(codec) => reconstruct_data(codec, shards),
            None => {
                return Ok(false);
            },
        };
        proof {
            lemma_four_shards_suffice(expected);
        }
        match recovered {
            Ok(shards) => {
                let step: u32 = self.timestamp_increment(base, base_timestamp);
                self.store_recovered(base, base_timestamp, step, &shards);
                proof {
                    assert forall|other: u16, whole: Seq<Seq<u8>>|
                        other as int % RTP_AUDIO_DATA_SHARDS as int == 0 && is_codeword(
                            audio_code(),
                            whole,
                        ) && #[trigger] is_part_of(
                            block_shards(data, fec, other),
                            whole,
                        ) implies block_agrees(self@, other, whole) by {
                        lemma_part_agrees(old(self)@, other, whole);
                        if other == base {
                            assert forall|i: int|
                                0 <= i < RTP_AUDIO_DATA_SHARDS && self@.data.contains_key(
                                    #[trigger] in_block(base, i),
                                ) implies self@.data[in_block(base, i)].payload == whole[i] by {
                                assert(shards@[i] is Some);
                                assert(shard_bytes(shards@)[i] == Some(whole[i]));
                            }
                        } else {
                            lemma_recovery_is_local(
                                old(self)@,
                                base,
                                base_timestamp,
                                shard_bytes(shards@),
                                other,
                                whole,
                            );
                        }
                    }
                    assert forall|sent: SentAudio|
                        sent.wf() && #[trigger] as_sent(old(self)@, sent) implies as_sent(
                        self@,
                        sent,
                    ) by {
                        let whole = sent.block(base);
                        assert(is_codeword(audio_code(), whole));
                        assert(fec_as_sent(fec[at as int], sent));
                        assert(is_part_of(expected, whole));
                        assert(forall|i: int|
                            0 <= i < 4 ==> #[trigger] shards@[i] is Some && shard_bytes(shards@)[i]
                                == Some(whole[i]));
                        assert forall|number: u16| #[trigger]
                            self@.data.contains_key(number) implies self@.data[number].payload == (
                        sent.data)(number) by {
                            if !data.contains_key(number) {
                                let i = number - base;
                                assert(shards@[i] is Some);
                                assert(whole[i] == (sent.data)(in_block(base, i)));
                            }
                        }
                    }
                }
                Ok(true)
            },
            Err(error) => Err(AudioDepayloaderError::ReedSolomon(error)),
        }
    }

    /// The payload of the parity packet at an index.
    fn fec_shard(&self, at: Option<usize>) -> (shard: Option<Vec<u8>>)
        requires
            at matches Some(at) ==> at < self.fec_packets@.len(),
        ensures
            shard is Some == at is Some,
            shard matches Some(bytes) ==> bytes@ == self.fec_packets@[at->0 as int].payload@,
    {
        match at {
            Some(at) => Some(copy_bytes(&self.fec_packets[at].payload)),
            None => None,
        }
    }

    /// The timestamp increment for one audio packet, judged by a packet of the
    /// block other than its first.
    fn timestamp_increment(&self, base: u16, base_timestamp: u32) -> (step: u32)
        requires
            base + 3 <= u16::MAX,
            exists|k: int|
                1 <= k <= 3 && #[trigger] self.data_packets@.contains_key(in_block(base, k)),
        ensures
            step == timestamp_step(data_views(self.data_packets@), base, base_timestamp),
    {
        let mut k: u16 = 1;
        if !self.data_packets.contains_key(&(base + 1)) {
            k = if self.data_packets.contains_key(&(base + 2)) {
                2
            } else {
                3
            };
        }
        match self.data_packets.get(&(base + k)) {
            Some(packet) => packet.timestamp.saturating_sub(base_timestamp) / k as u32,
            None => 0,
        }
    }

    /// Stores the data shards that were missing.
    fn store_recovered(
        &mut self,
        base: u16,
        base_timestamp: u32,
        step: u32,
        shards: &Vec<Option<Vec<u8>>>,
    )
        requires
            old(self).wf(),
            base + 3 <= u16::MAX,
            shards@.len() >= RTP_AUDIO_DATA_SHARDS,
            forall|i: int| 0 <= i < RTP_AUDIO_DATA_SHARDS ==> shards@[i] is Some,
            step == timestamp_step(old(self)@.data, base, base_timestamp),
        ensures
            final(self).wf(),
            final(self).backend() == old(self).backend(),
            final(self)@ == (AudioView {
                data: filled(old(self)@.data, base, base_timestamp, shard_bytes(shards@)),
                ..old(self)@
            }),
    {
        let ghost data = data_views(self.data_packets@);
        let ghost goal = filled(data, base, base_timestamp, shard_bytes(shards@));
        let mut i: u16 = 0;
        while i < RTP_AUDIO_DATA_SHARDS as u16
            invariant
                i <= RTP_AUDIO_DATA_SHARDS,
                base + 3 <= u16::MAX,
                shards@.len() >= RTP_AUDIO_DATA_SHARDS,
                forall|i: int| 0 <= i < RTP_AUDIO_DATA_SHARDS ==> shards@[i] is Some,
                data == data_views(old(self).data_packets@),
                goal == filled(data, base, base_timestamp, shard_bytes(shards@)),
                step == timestamp_step(data, base, base_timestamp),
                self.crypto_backend == old(self).crypto_backend,
                self.encryption == old(self).encryption,
                self.current_sequence_number == old(self).current_sequence_number,
                self.fec_packets == old(self).fec_packets,
                self.fec_decoder == old(self).fec_decoder,
                forall|number: u16| #[trigger]
                    self.data_packets@.contains_key(number) <==> (data.contains_key(number) || base
                        <= number < base + i),
                forall|number: u16| #[trigger]
                    self.data_packets@.contains_key(number) ==> self.data_packets@[number]@
                        == goal[number],
            decreases RTP_AUDIO_DATA_SHARDS - i,
        {
            if !self.data_packets.contains_key(&(base + i)) {
                if let Some(payload) = &shards[i as usize] {
                    let packet = DataPacket {
                        timestamp: step_timestamp(base_timestamp, step, i as u32),
                        payload: copy_bytes(payload),
                    };
                    assert(packet@ == goal[(base + i) as u16]);
                    self.data_packets.insert(base + i, packet);
                }
            }
            i = i + 1;
        }
        assert(data_views(self.data_packets@) =~= goal);
    }
}

/// What taking a datagram in comes to: the next state and what is reported are
/// those of the model; what is recovered of a block is what was lost of it; and
/// if the datagram carries what was sent, everything that is stored is still as
/// it was sent, whatever was recovered.
pub open spec fn is_handled(
    before: AudioView,
    bytes: Seq<u8>,
    after: AudioView,
    result: Result<(), AudioDepayloaderError>,
) -> bool {
    &&& (after, result) == after_packet(before, bytes)
    &&& recovers_the_lost(with_datagram(before, bytes), after)
    &&& forall|sent: SentAudio|
        sent.wf() && #[trigger] as_sent(before, sent) && datagram_as_sent(before, bytes, sent)
            ==> as_sent(after, sent)
}

/// One for something that is there.
fn count(there: bool) -> (n: usize)
    ensures
        n == if there {
            1int
        } else {
            0
        },
{
    if there {
        1
    } else {
        0
    }
}

/// The frame that is due when a depayloader is asked for one: the packet whose
/// turn it is, decrypted if the stream is encrypted.
pub open spec fn is_polled_frame<C: CryptoBackend>(
    view: AudioView,
    backend: C,
    frame: Result<Option<AudioFrame>, AudioDepayloaderError>,
) -> bool {
    if !view.data.contains_key(view.current) {
        frame == Ok::<Option<AudioFrame>, AudioDepayloaderError>(None)
    } else {
        let packet = view.data[view.current];
        match view.encryption {
            None => frame matches Ok(Some(frame)) && frame@ == frame_of(packet),
            Some(encryption) => {
                match backend.cbc_plaintext(
                    encryption.aes_key,
                    packet_iv(encryption.aes_iv, view.current),
                    packet.payload,
                    pkcs7_safe_len(packet.payload.len() as int) as nat,
                ) {
                    Ok(plaintext) => frame matches Ok(Some(frame)) && frame@ == (FrameView {
                        buffer: plaintext,
                        ..frame_of(packet)
                    }),
                    Err(error) => frame == Err::<Option<AudioFrame>, AudioDepayloaderError>(
                        AudioDepayloaderError::Crypto(error),
                    ),
                }
            },
        }
    }
}

/// Replaces the payload of a frame by what a backend wrote to `plaintext`, and
/// hands the old payload back; or reports the backend's error.
pub fn decrypted_frame(
    frame: AudioFrame,
    written: Result<usize, CryptoError>,
    plaintext: Vec<u8>,
) -> (result: Result<(AudioFrame, Vec<u8>), AudioDepayloaderError>)
    ensures
        match written_plaintext(written, plaintext@) {
            Ok(bytes) => {
                &&& result matches Ok(parts)
                &&& parts.0@ == (FrameView { timestamp: frame.timestamp, buffer: bytes })
                &&& parts.1@ == frame.buffer@
            },
            Err(error) => result == Err::<(AudioFrame, Vec<u8>), AudioDepayloaderError>(
                AudioDepayloaderError::Crypto(error),
            ),
        },
{
    match written {
        Ok(len) => {
            let mut plaintext = plaintext;
            plaintext.truncate(len);
            Ok((AudioFrame { timestamp: frame.timestamp, buffer: plaintext }, frame.buffer))
        },
        Err(error) => Err(AudioDepayloaderError::Crypto(error)),
    }
}

} // verus!
