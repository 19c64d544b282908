//! The whole trip of a block of audio: from the datagrams that arrive of it to
//! its frames.

use vstd::prelude::*;

use crate::audio::crypto::{packet_iv, pkcs7_safe_len, CryptoBackend, SunshineEncryption};
use crate::audio::depayloader::{is_handled, is_polled_frame, parity_is_usable, AudioFrame};
use crate::audio::fec::{audio_code, present, reconstructed, size_fault};
use crate::audio::galois::{is_codeword, is_part_of};
use crate::audio::laws::{law_parity_stays_in_order, packet_of};
use crate::audio::model::{
    after_data, after_fec, after_poll, after_reconstruction, block_agrees, block_containing,
    block_shards, block_start, distance, fec_aligned, fec_before, fec_inserted, fec_payload,
    fec_sorted, filled, in_block, is_behind, later_packet, lemma_inserted_keeps_order,
    parity_of_block, recovers_the_lost, timestamp_step, with_data, with_datagram, with_fec,
    AudioDepayloaderError, AudioView, DataView, FecView, FrameView,
};
use crate::audio::packet::{
    AudioFecHeader, AUDIO_FEC_HEADER_SIZE, RTP_AUDIO_DATA_SHARDS, RTP_AUDIO_HEADER_SIZE,
};
use crate::audio::wire::{
    carries_data, carries_parity, lemma_carries_data, lemma_carries_parity,
};
use crate::search::{first_where, lemma_first_where, lemma_first_where_meaning};

verus! {

/// A block of a stream, as a host sends it.
pub struct SentBlock {
    /// The sequence number of the first packet.
    pub base: u16,
    /// The four payloads, and their two parity shards.
    pub shards: Seq<Seq<u8>>,
    /// The timestamp of the first packet.
    pub start: u32,
    /// By how much timestamps grow from one packet to the next.
    pub step: u32,
}

impl SentBlock {
    /// The block starts at a multiple of its length, and the parity is that of
    /// the payloads.
    pub open spec fn wf(self) -> bool {
        &&& self.base as int % RTP_AUDIO_DATA_SHARDS as int == 0
        &&& is_codeword(audio_code(), self.shards)
    }

    /// Whether lost packets of the block can be recovered: the payloads are not
    /// empty, and timestamps do not wrap around within the block.
    pub open spec fn is_recoverable(self) -> bool {
        &&& self.shards[0].len() > 0
        &&& self.start + 3 * self.step <= u32::MAX
    }

    /// The sequence number that comes `i` packets after the first.
    pub open spec fn number(self, i: int) -> u16 {
        ((self.base + i) % 0x1_0000) as u16
    }

    /// The `i`th packet.
    pub open spec fn packet(self, i: int) -> DataView {
        DataView {
            timestamp: ((self.start + i * self.step) % 0x1_0000_0000) as u32,
            payload: self.shards[i],
        }
    }

    /// The frame that the `i`th packet carries: its timestamp counts
    /// milliseconds.
    pub open spec fn frame(self, i: int) -> FrameView {
        FrameView {
            timestamp: (self.packet(i).timestamp * 1_000_000) as u64,
            buffer: self.shards[i],
        }
    }

    /// What asking for the `i`th frame comes to: the frame, decrypted if the
    /// stream is encrypted, or why it cannot be.
    pub open spec fn outcome<C: CryptoBackend>(
        self,
        encryption: Option<SunshineEncryption>,
        backend: C,
        i: int,
    ) -> Result<FrameView, AudioDepayloaderError> {
        match encryption {
            None => Ok(self.frame(i)),
            Some(encryption) => match backend.cbc_plaintext(
                encryption.aes_key,
                packet_iv(encryption.aes_iv, self.number(i)),
                self.shards[i],
                pkcs7_safe_len(self.shards[i].len() as int) as nat,
            ) {
                Ok(plaintext) => Ok(FrameView { buffer: plaintext, ..self.frame(i) }),
                Err(error) => Err(AudioDepayloaderError::Crypto(error)),
            },
        }
    }

    /// Whether a stored parity packet is the first or the second of the block.
    pub open spec fn is_parity(self, packet: FecView, second: bool) -> bool {
        &&& packet.header.base_sequence_number == self.base
        &&& packet.header.base_timestamp == self.start
        &&& (packet.header.fec_shard_index > 0) == second
        &&& packet.payload == self.shards[if second {
            5int
        } else {
            4
        }]
    }

    /// Whether a datagram is the one that carries a shard of the block.
    pub open spec fn is_shard(self, index: int, bytes: Seq<u8>) -> bool {
        if index < RTP_AUDIO_DATA_SHARDS {
            0 <= index && carries_data(
                bytes,
                self.number(index),
                self.packet(index).timestamp,
                self.shards[index],
            )
        } else {
            &&& index < 6
            &&& bytes.len() > 12
            &&& (bytes[12] > 0) == (index == 5)
            &&& carries_parity(bytes, bytes[12], self.base, self.start, self.shards[index])
        }
    }

    /// Whether the turn has come to the block and nothing of it was received
    /// yet. Packets and parity of other blocks may be stored, and the stream may
    /// be encrypted.
    pub open spec fn is_next(self, view: AudioView) -> bool {
        &&& parity_is_usable(view)
        &&& view.fec_enabled
        &&& view.current == self.base
        &&& forall|i: int|
            0 <= i < RTP_AUDIO_DATA_SHARDS ==> !view.data.contains_key(#[trigger] self.number(i))
        &&& forall|i: int|
            0 <= i < view.fec.len() ==> (#[trigger] view.fec[i]).header.base_sequence_number
                != self.base
    }
}

/// The parity packet that a datagram carries.
pub open spec fn parity_of(bytes: Seq<u8>) -> FecView {
    FecView {
        header: AudioFecHeader::parsed(bytes, RTP_AUDIO_HEADER_SIZE as int),
        payload: bytes.skip(RTP_AUDIO_HEADER_SIZE + AUDIO_FEC_HEADER_SIZE),
    }
}

/// Something that is done with a depayloader while a block arrives.
pub enum BlockStep {
    /// A shard of the block is taken in.
    Shard { index: int, bytes: Seq<u8>, result: Result<(), AudioDepayloaderError> },
    /// A frame is asked for.
    Poll { frame: Result<Option<AudioFrame>, AudioDepayloaderError> },
}

/// Whether a step leads from one state to another.
pub open spec fn is_block_step<C: CryptoBackend>(
    block: SentBlock,
    backend: C,
    before: AudioView,
    step: BlockStep,
    after: AudioView,
) -> bool {
    match step {
        BlockStep::Shard { index, bytes, result } => block.is_shard(index, bytes) && is_handled(
            before,
            bytes,
            after,
            result,
        ),
        BlockStep::Poll { frame } => after == after_poll(before) && is_polled_frame(
            before,
            backend,
            frame,
        ),
    }
}

/// Whether a depayloader that is to give out the block next goes through these
/// states.
pub open spec fn is_block_run<C: CryptoBackend>(
    block: SentBlock,
    backend: C,
    views: Seq<AudioView>,
    steps: Seq<BlockStep>,
) -> bool {
    &&& views.len() == steps.len() + 1
    &&& block.is_next(views[0])
    &&& forall|j: int|
        0 <= j < steps.len() ==> is_block_step(
            block,
            backend,
            views[j],
            #[trigger] steps[j],
            views[j + 1],
        )
}

/// Whether a shard is taken in at some step.
pub open spec fn arrives(steps: Seq<BlockStep>, index: int) -> bool
    decreases steps.len(),
{
    steps.len() > 0 && (arrives(steps.drop_last(), index) || (
    steps.last() matches BlockStep::Shard { index: last, .. } && last == index))
}

/// Whether no shard is taken in twice.
pub open spec fn arrive_once(steps: Seq<BlockStep>) -> bool
    decreases steps.len(),
{
    steps.len() > 0 ==> arrive_once(steps.drop_last()) && (
    steps.last() matches BlockStep::Shard { index, .. } ==> !arrives(steps.drop_last(), index))
}

/// One for something that holds.
pub open spec fn one_if(holds: bool) -> int {
    if holds {
        1
    } else {
        0
    }
}

/// How many shards are taken in.
pub open spec fn arrivals(steps: Seq<BlockStep>) -> int {
    one_if(arrives(steps, 0)) + one_if(arrives(steps, 1)) + one_if(arrives(steps, 2)) + one_if(
        arrives(steps, 3),
    ) + one_if(arrives(steps, 4)) + one_if(arrives(steps, 5))
}

/// Whether all four data packets are taken in.
pub open spec fn all_data_arrives(steps: Seq<BlockStep>) -> bool {
    arrives(steps, 0) && arrives(steps, 1) && arrives(steps, 2) && arrives(steps, 3)
}

/// Whether at some time four shards are there and a data packet is not, so that
/// it is recovered.
pub open spec fn recovery_is_due(steps: Seq<BlockStep>) -> bool
    decreases steps.len(),
{
    steps.len() > 0 && (recovery_is_due(steps.drop_last()) || (arrivals(steps) >= 4
        && !all_data_arrives(steps)))
}

/// What asking for frames comes to, as far as one is there.
pub open spec fn outcomes(steps: Seq<BlockStep>) -> Seq<Result<FrameView, AudioDepayloaderError>>
    decreases steps.len(),
{
    if steps.len() == 0 {
        Seq::empty()
    } else {
        let before = outcomes(steps.drop_last());
        match steps.last() {
            BlockStep::Poll { frame: Ok(Some(frame)) } => before.push(Ok(frame@)),
            BlockStep::Poll { frame: Err(error) } => before.push(Err(error)),
            _ => before,
        }
    }
}

/// The frames that are given out.
pub open spec fn frames_given(steps: Seq<BlockStep>) -> Seq<FrameView>
    decreases steps.len(),
{
    if steps.len() == 0 {
        Seq::empty()
    } else {
        let before = frames_given(steps.drop_last());
        match steps.last() {
            BlockStep::Poll { frame: Ok(Some(frame)) } => before.push(frame@),
            _ => before,
        }
    }
}

/// Whether all data of the block is stored.
spec fn is_complete(block: SentBlock, data: Map<u16, DataView>) -> bool {
    forall|i: int| 0 <= i < RTP_AUDIO_DATA_SHARDS ==> data.contains_key(#[trigger] block.number(i))
}

/// Whether what is stored of the block's data is as it was sent.
spec fn holds_data(block: SentBlock, data: Map<u16, DataView>) -> bool {
    forall|i: int|
        0 <= i < RTP_AUDIO_DATA_SHARDS && data.contains_key(#[trigger] block.number(i))
            ==> data[block.number(i)] == block.packet(i)
}

/// Whether the parity that is stored of the block is these shards, each once.
spec fn holds_parity(block: SentBlock, fec: Seq<FecView>, first: bool, second: bool) -> bool {
    &&& forall|i: int|
        0 <= i < fec.len() && (#[trigger] fec[i]).header.base_sequence_number == block.base ==> (
        first && block.is_parity(fec[i], false)) || (second && block.is_parity(fec[i], true))
    &&& first ==> exists|i: int| 0 <= i < fec.len() && block.is_parity(#[trigger] fec[i], false)
    &&& second ==> exists|i: int| 0 <= i < fec.len() && block.is_parity(#[trigger] fec[i], true)
    &&& pairwise(fec, not_the_same(block.base))
}

/// That two packets are not the same parity of a block.
spec fn not_the_same(base: u16) -> spec_fn(FecView, FecView) -> bool {
    |a: FecView, b: FecView|
        a.header.base_sequence_number == base && b.header.base_sequence_number == base
            ==> a.header.fec_shard_index != b.header.fec_shard_index
}

/// Whether something holds of any two packets.
spec fn pairwise(fec: Seq<FecView>, holds: spec_fn(FecView, FecView) -> bool) -> bool {
    forall|i: int, j: int| 0 <= i < j < fec.len() ==> holds(#[trigger] fec[i], #[trigger] fec[j])
}

/// How many shards of the block are stored.
spec fn shards_there(block: SentBlock, view: AudioView, first: bool, second: bool) -> int {
    one_if(view.data.contains_key(block.number(0))) + one_if(
        view.data.contains_key(block.number(1)),
    ) + one_if(view.data.contains_key(block.number(2))) + one_if(
        view.data.contains_key(block.number(3)),
    ) + one_if(first) + one_if(second)
}

/// What holds while a block arrives, but for what is still to be recovered.
spec fn stored_inv(
    block: SentBlock,
    encryption: Option<SunshineEncryption>,
    view: AudioView,
    steps: Seq<BlockStep>,
) -> bool {
    let given = outcomes(steps);
    &&& parity_is_usable(view)
    &&& view.encryption == encryption
    &&& view.fec_enabled
    &&& given.len() <= 4
    &&& view.current == block.number(given.len() as int)
    &&& forall|i: int|
        0 <= i < given.len() ==> view.data.contains_key(#[trigger] block.number(i))
    &&& holds_data(block, view.data)
    &&& forall|i: int|
        0 <= i < 4 && arrives(steps, i) ==> view.data.contains_key(#[trigger] block.number(i))
    &&& is_complete(block, view.data) || forall|i: int|
        0 <= i < 4 && view.data.contains_key(#[trigger] block.number(i)) ==> arrives(steps, i)
    &&& holds_parity(block, view.fec, arrives(steps, 4), arrives(steps, 5))
}

/// What holds while a block arrives.
spec fn block_inv(
    block: SentBlock,
    encryption: Option<SunshineEncryption>,
    view: AudioView,
    steps: Seq<BlockStep>,
) -> bool {
    &&& stored_inv(block, encryption, view, steps)
    &&& arrivals(steps) >= 4 ==> is_complete(block, view.data)
}

/// Shards of one length that is not zero have no fault in size.
pub(crate) proof fn lemma_sizes_agree(shards: Seq<Option<Seq<u8>>>, i: nat, size: Option<nat>, len: nat)
    requires
        len > 0,
        size is None || size == Some(len),
        forall|j: int|
            0 <= j < shards.len() ==> (#[trigger] shards[j] matches Some(bytes) ==> bytes.len()
                == len),
    ensures
        size_fault(shards, i, size) is None,
    decreases shards.len() - i,
{
    if i < shards.len() {
        match shards[i as int] {
            Some(_) => lemma_sizes_agree(shards, i + 1, Some(len), len),
            None => lemma_sizes_agree(shards, i + 1, size, len),
        }
    }
}

/// Where the parity of the block is found in the list, and what it is.
proof fn lemma_parity_found(block: SentBlock, fec: Seq<FecView>, first: bool, second: bool)
    requires
        block.wf(),
        fec_sorted(fec),
        fec_aligned(fec),
        holds_parity(block, fec, first, second),
    ensures
        (first || second) <==> block_start(fec, block.base) < fec.len(),
        block_start(fec, block.base) <= fec.len(),
        first || second ==> block.is_parity(fec[block_start(fec, block.base)], !first),
        fec_payload(parity_of_block(fec, block.base).0) == if first {
            Some(block.shards[4])
        } else {
            None
        },
        fec_payload(parity_of_block(fec, block.base).1) == if second {
            Some(block.shards[5])
        } else {
            None
        },
        forall|i: int|
            0 <= i < 4 ==> block_containing(fec, #[trigger] block.number(i)) == block_start(
                fec,
                block.base,
            ),
{
    let base = block.base;
    let at_base = |packet: FecView| packet.header.base_sequence_number == base;
    let at = block_start(fec, base);
    lemma_first_where_meaning(fec, at_base);
    assert forall|j: int| 0 <= j < at implies (
    #[trigger] fec[j]).header.base_sequence_number != base by {
        assert(!at_base(fec[j]));
    }
    if at < fec.len() {
        assert(at_base(fec[at]));
    }
    assert forall|i: int| 0 <= i < 4 implies block_containing(fec, #[trigger] block.number(i))
        == at by {
        let number = block.number(i);
        let around = |packet: FecView|
            distance(packet.header.base_sequence_number, number) < RTP_AUDIO_DATA_SHARDS;
        assert forall|j: int| 0 <= j < at implies !around(#[trigger] fec[j]) by {
            assert(fec[j].header.base_sequence_number as int % 4 == 0);
        }
        lemma_first_where(fec, around, at as nat);
    }
    if first {
        let i = choose|i: int| 0 <= i < fec.len() && block.is_parity(#[trigger] fec[i], false);
        assert(at <= i);
        assert(at < i ==> !fec_before(fec[i].header, fec[at].header));
        assert(block.is_parity(fec[at], false));
    }
    if second {
        let j = choose|j: int| 0 <= j < fec.len() && block.is_parity(#[trigger] fec[j], true);
        assert(at <= j);
        if first {
            assert(at < j);
            assert(!fec_before(fec[at + 1].header, fec[at].header));
            assert(at + 1 < j ==> !fec_before(fec[j].header, fec[at + 1].header));
            assert(fec[at + 1].header.base_sequence_number == base);
            assert(not_the_same(base)(fec[at], fec[at + 1]));
            assert(block.is_parity(fec[at + 1], true));
        }
    }
    if first && !second && at + 1 < fec.len() {
        assert(not_the_same(base)(fec[at], fec[at + 1]));
        assert(fec[at + 1].header.base_sequence_number != base);
    }
}

/// The shards of the block that are stored.
proof fn lemma_block_shards(block: SentBlock, view: AudioView, first: bool, second: bool)
    requires
        block.wf(),
        view.fec_enabled,
        parity_is_usable(view),
        holds_data(block, view.data),
        holds_parity(block, view.fec, first, second),
    ensures
        ({
            let shards = block_shards(view.data, view.fec, block.base);
            &&& is_part_of(shards, block.shards)
            &&& present(shards, 6) == shards_there(block, view, first, second)
            &&& present(shards, 4) == shards_there(block, view, false, false)
            &&& block.shards[0].len() > 0 ==> size_fault(shards, 0, None) is None
        }),
{
    reveal_with_fuel(present, 7);
    let base = block.base;
    let shards = block_shards(view.data, view.fec, base);
    lemma_parity_found(block, view.fec, first, second);
    assert(block.number(0) == in_block(base, 0));
    assert(block.number(1) == in_block(base, 1));
    assert(block.number(2) == in_block(base, 2));
    assert(block.number(3) == in_block(base, 3));
    assert(shards[4] is Some == first);
    assert(shards[5] is Some == second);
    assert(is_part_of(shards, block.shards));
    if block.shards[0].len() > 0 {
        assert forall|j: int| 0 <= j < shards.len() implies (
        #[trigger] shards[j] matches Some(bytes) ==> bytes.len() == block.shards[0].len()) by {
            assert(block.shards[j].len() == block.shards[0].len());
        }
        lemma_sizes_agree(shards, 0, None, block.shards[0].len());
    }
}

/// Data that is filled in gets its timestamp back.
proof fn lemma_filled_timestamps(
    block: SentBlock,
    data: Map<u16, DataView>,
    shards: Seq<Option<Seq<u8>>>,
    i: int,
)
    requires
        block.wf(),
        block.is_recoverable(),
        holds_data(block, data),
        exists|k: int| 1 <= k < 4 && data.contains_key(#[trigger] block.number(k)),
        0 <= i < 4,
    ensures
        filled(data, block.base, block.start, shards)[block.number(i)].timestamp == block.packet(
            i,
        ).timestamp,
{
    let base = block.base;
    assert(block.number(1) == in_block(base, 1));
    assert(block.number(2) == in_block(base, 2));
    assert(block.number(3) == in_block(base, 3));
    let k = later_packet(data, base);
    assert(data.contains_key(block.number(k)));
    assert(data[block.number(k)] == block.packet(k));
    let step = timestamp_step(data, base, block.start);
    assert(k == 1 || k == 2 || k == 3);
    assert(data[in_block(base, k)].timestamp == block.start + k * block.step);
    assert(step == block.step);
    assert(block.number(i) - base == i);
    if !data.contains_key(block.number(i)) {
        assert(filled(data, base, block.start, shards)[block.number(i)].timestamp == ((block.start
            + step * (block.number(i) - base)) % 0x1_0000_0000) as u32);
        assert(step * (block.number(i) - base) == i * block.step) by (nonlinear_arith)
            requires
                step == block.step,
                block.number(i) - base == i,
        ;
    }
}

/// Trying to recover the block does nothing as long as fewer than four shards
/// are there, and gives all its data after that.
proof fn lemma_block_recovery(block: SentBlock, view: AudioView, first: bool, second: bool)
    requires
        block.wf(),
        view.fec_enabled,
        parity_is_usable(view),
        holds_data(block, view.data),
        holds_parity(block, view.fec, first, second),
        first || second,
        block.is_recoverable() || shards_there(block, view, first, second) < 4 || is_complete(
            block,
            view.data,
        ),
    ensures
        ({
            let (after, result) = after_reconstruction(view, block.base);
            let there = shards_there(block, view, first, second);
            &&& result is Ok
            &&& after == (AudioView { data: after.data, ..view })
            &&& there < 4 ==> after == view
            &&& there >= 4 ==> is_complete(block, after.data)
            &&& after.data.contains_key(block.number(4)) == view.data.contains_key(block.number(4))
            &&& forall|i: int|
                0 <= i < 4 && view.data.contains_key(#[trigger] block.number(i))
                    ==> after.data.contains_key(block.number(i))
            &&& forall|i: int|
                0 <= i < 4 && after.data.contains_key(#[trigger] block.number(i))
                    ==> after.data[block.number(i)].timestamp == block.packet(i).timestamp
        }),
        is_part_of(block_shards(view.data, view.fec, block.base), block.shards),
{
    let base = block.base;
    let (after, result) = after_reconstruction(view, base);
    let shards = block_shards(view.data, view.fec, base);
    lemma_block_shards(block, view, first, second);
    lemma_parity_found(block, view.fec, first, second);
    assert(is_complete(block, view.data) ==> shards_there(block, view, false, false) == 4);
    if present(shards, 6) >= 4 && present(shards, 4) < 4 {
        assert(view.data.contains_key(block.number(1)) || view.data.contains_key(block.number(2))
            || view.data.contains_key(block.number(3)));
        assert forall|i: int| 0 <= i < 4 implies after.data.contains_key(
            #[trigger] block.number(i),
        ) && after.data[block.number(i)].timestamp == block.packet(i).timestamp by {
            lemma_filled_timestamps(
                block,
                view.data,
                reconstructed(audio_code(), shards)->Ok_0,
                i,
            );
        }
    } else if present(shards, 6) >= 4 {
        assert forall|i: int| 0 <= i < 4 implies view.data.contains_key(
            #[trigger] block.number(i),
        ) by {
            assert(i == 0 || i == 1 || i == 2 || i == 3);
        }
    }
}

/// Storing parity of the block.
proof fn lemma_parity_stored(
    block: SentBlock,
    fec: Seq<FecView>,
    first: bool,
    second: bool,
    packet: FecView,
    is_second: bool,
)
    requires
        holds_parity(block, fec, first, second),
        block.is_parity(packet, is_second),
        is_second ==> !second,
        !is_second ==> !first,
    ensures
        holds_parity(
            block,
            fec_inserted(fec, packet),
            first || !is_second,
            second || is_second,
        ),
{
    let pred = |other: FecView| !fec_before(other.header, packet.header);
    let at = first_where(fec, pred) as int;
    lemma_first_where_meaning(fec, pred);
    let out = fec_inserted(fec, packet);
    assert(out[at] == packet);
    assert forall|i: int| 0 <= i < fec.len() implies #[trigger] fec[i] == out[if i < at {
        i
    } else {
        i + 1
    }] by {}
    assert forall|i: int| 0 <= i < out.len() && i != at implies #[trigger] out[i] == fec[if i
        < at {
        i
    } else {
        i - 1
    }] by {}
    if first {
        let i = choose|i: int| 0 <= i < fec.len() && block.is_parity(#[trigger] fec[i], false);
        assert(block.is_parity(
            out[if i < at {
                i
            } else {
                i + 1
            }],
            false,
        ));
    }
    if second {
        let i = choose|i: int| 0 <= i < fec.len() && block.is_parity(#[trigger] fec[i], true);
        assert(block.is_parity(
            out[if i < at {
                i
            } else {
                i + 1
            }],
            true,
        ));
    }
    assert(block.is_parity(out[at], is_second));
    let apart = not_the_same(block.base);
    assert forall|i: int, j: int| 0 <= i < j < out.len() implies apart(
        #[trigger] out[i],
        #[trigger] out[j],
    ) by {
        if i != at && j != at {
            let k = if i < at {
                i
            } else {
                i - 1
            };
            let l = if j < at {
                j
            } else {
                j - 1
            };
            assert(apart(fec[k], fec[l]));
        }
    }
}

/// What holds of any two packets holds of any two that are left.
proof fn lemma_filter_keeps_pairs(
    fec: Seq<FecView>,
    keep: spec_fn(FecView) -> bool,
    holds: spec_fn(FecView, FecView) -> bool,
)
    requires
        pairwise(fec, holds),
    ensures
        pairwise(fec.filter(keep), holds),
    decreases fec.len(),
{
    reveal(Seq::filter);
    if fec.len() > 0 {
        let rest = fec.drop_last();
        lemma_filter_keeps_pairs(rest, keep, holds);
        let out = fec.filter(keep);
        assert forall|i: int, j: int| 0 <= i < j < out.len() implies holds(
            #[trigger] out[i],
            #[trigger] out[j],
        ) by {
            if j >= rest.filter(keep).len() {
                assert(rest.filter(keep).contains(rest.filter(keep)[i]));
                rest.lemma_filter_contains_rev(keep, rest.filter(keep)[i]);
                let k = choose|k: int| 0 <= k < rest.len() && rest[k] == rest.filter(keep)[i];
                assert(fec[k] == out[i]);
                assert(fec[fec.len() - 1] == out[j]);
            }
        }
    }
}

/// Dropping other parity leaves that of the block.
proof fn lemma_parity_kept(
    block: SentBlock,
    fec: Seq<FecView>,
    keep: spec_fn(FecView) -> bool,
    first: bool,
    second: bool,
)
    requires
        holds_parity(block, fec, first, second),
        forall|packet: FecView|
            packet.header.base_sequence_number == block.base ==> #[trigger] keep(packet),
    ensures
        holds_parity(block, fec.filter(keep), first, second),
{
    let out = fec.filter(keep);
    lemma_filter_keeps_pairs(fec, keep, not_the_same(block.base));
    assert forall|i: int|
        0 <= i < out.len() && (#[trigger] out[i]).header.base_sequence_number
            == block.base implies (first && block.is_parity(out[i], false)) || (second
        && block.is_parity(out[i], true)) by {
        assert(out.contains(out[i]));
        fec.lemma_filter_contains_rev(keep, out[i]);
        let k = choose|k: int| 0 <= k < fec.len() && fec[k] == out[i];
        assert(fec[k].header.base_sequence_number == block.base);
    }
    if first {
        let i = choose|i: int| 0 <= i < fec.len() && block.is_parity(#[trigger] fec[i], false);
        fec.lemma_filter_contains(keep, i);
        let k = choose|k: int| 0 <= k < out.len() && out[k] == fec[i];
        assert(block.is_parity(out[k], false));
    }
    if second {
        let i = choose|i: int| 0 <= i < fec.len() && block.is_parity(#[trigger] fec[i], true);
        fec.lemma_filter_contains(keep, i);
        let k = choose|k: int| 0 <= k < out.len() && out[k] == fec[i];
        assert(block.is_parity(out[k], true));
    }
}

/// What asking for a frame comes to while the block arrives.
proof fn lemma_poll_outcome<C: CryptoBackend>(
    block: SentBlock,
    backend: C,
    before: AudioView,
    steps: Seq<BlockStep>,
    after: AudioView,
)
    requires
        steps.len() > 0,
        steps.last() is Poll,
        outcomes(steps).len() <= 4,
        block_inv(block, before.encryption, before, steps.drop_last()),
        is_block_step(block, backend, before, steps.last(), after),
    ensures
        after.current == block.number(outcomes(steps).len() as int),
        outcomes(steps).len() > outcomes(steps.drop_last()).len() ==> before.data.contains_key(
            before.current,
        ),
        steps.last() matches BlockStep::Poll { frame: Ok(None) } ==> !before.data.contains_key(
            before.current,
        ),
        outcomes(steps) == outcomes(steps.drop_last()) || outcomes(steps) == outcomes(
            steps.drop_last(),
        ).push(
            block.outcome(
                before.encryption,
                backend,
                outcomes(steps.drop_last()).len() as int,
            ),
        ),
{
    let given = outcomes(steps.drop_last());
    if before.data.contains_key(before.current) {
        let i = given.len() as int;
        assert(i < 4);
        assert(before.data[block.number(i)] == block.packet(i));
        assert(outcomes(steps) == given.push(block.outcome(before.encryption, backend, i)));
    } else {
        assert(outcomes(steps) == given);
    }
}

/// Asking for a frame keeps what is stored of the block.
proof fn lemma_poll_keeps_block(block: SentBlock, before: AudioView, given: int)
    requires
        block.wf(),
        0 <= given <= 4,
        after_poll(before).current == block.number(given),
    ensures
        !is_behind(
            block.base,
            after_poll(before).current.wrapping_sub(RTP_AUDIO_DATA_SHARDS as u16),
        ),
        forall|i: int|
            0 <= i < 4 ==> after_poll(before).data.contains_key(#[trigger] block.number(i))
                == before.data.contains_key(block.number(i)),
        forall|i: int|
            0 <= i < 4 && before.data.contains_key(#[trigger] block.number(i)) ==> after_poll(
                before,
            ).data[block.number(i)] == before.data[block.number(i)],
{
    let minimum = after_poll(before).current.wrapping_sub(RTP_AUDIO_DATA_SHARDS as u16);
    assert forall|i: int| 0 <= i < 4 implies !is_behind(#[trigger] block.number(i), minimum) by {}
    assert(block.number(0) == block.base);
}

/// Asking for a frame while the block arrives.
proof fn lemma_block_poll<C: CryptoBackend>(
    block: SentBlock,
    backend: C,
    before: AudioView,
    steps: Seq<BlockStep>,
    after: AudioView,
)
    requires
        block.wf(),
        steps.len() > 0,
        steps.last() is Poll,
        outcomes(steps).len() <= 4,
        block_inv(block, before.encryption, before, steps.drop_last()),
        is_block_step(block, backend, before, steps.last(), after),
    ensures
        block_inv(block, before.encryption, after, steps),
        after.data.contains_key(block.number(4)) ==> before.data.contains_key(block.number(4)),
{
    let past = steps.drop_last();
    let minimum = after.current.wrapping_sub(RTP_AUDIO_DATA_SHARDS as u16);
    law_parity_stays_in_order(before, Seq::empty());
    lemma_poll_outcome(block, backend, before, steps, after);
    lemma_poll_keeps_block(block, before, outcomes(steps).len() as int);
    lemma_parity_kept(
        block,
        before.fec,
        |packet: FecView| !is_behind(packet.header.base_sequence_number, minimum),
        arrives(past, 4),
        arrives(past, 5),
    );
    assert(forall|index: int| arrives(steps, index) == arrives(past, index));
}

/// The numbers of the block and of the packet right after it differ.
proof fn lemma_numbers_differ(block: SentBlock)
    ensures
        forall|i: int, j: int|
            0 <= i < j <= 4 ==> #[trigger] block.number(i) != #[trigger] block.number(j),
{
}

/// What a shard that was stored leads to.
proof fn lemma_block_stored(
    block: SentBlock,
    steps: Seq<BlockStep>,
    stored: AudioView,
    after: AudioView,
)
    requires
        block.wf(),
        steps.len() > 0,
        block.is_recoverable() || !recovery_is_due(steps),
        stored_inv(block, stored.encryption, stored, steps),
        arrives(steps, 4) || arrives(steps, 5),
        after == after_reconstruction(stored, block.base).0,
        recovers_the_lost(stored, after),
    ensures
        block_inv(block, stored.encryption, after, steps),
        after.data.contains_key(block.number(4)) == stored.data.contains_key(block.number(4)),
        after_reconstruction(stored, block.base).1 is Ok,
{
    let first = arrives(steps, 4);
    let second = arrives(steps, 5);
    let there = shards_there(block, stored, first, second);
    let held = |i: int| stored.data.contains_key(block.number(i));
    assert(forall|i: int| #[trigger] held(i) == stored.data.contains_key(block.number(i)));
    assert(arrives(steps, 0) ==> held(0));
    assert(arrives(steps, 1) ==> held(1));
    assert(arrives(steps, 2) ==> held(2));
    assert(arrives(steps, 3) ==> held(3));
    assert(arrivals(steps) <= there);
    if !is_complete(block, stored.data) {
        assert(held(0) == arrives(steps, 0) && held(1) == arrives(steps, 1) && held(2) == arrives(
            steps,
            2,
        ) && held(3) == arrives(steps, 3));
        assert(there == arrivals(steps));
        if all_data_arrives(steps) {
            assert forall|i: int| 0 <= i < 4 implies stored.data.contains_key(
                #[trigger] block.number(i),
            ) by {
                assert(i == 0 || i == 1 || i == 2 || i == 3);
            }
        }
        assert(there >= 4 ==> recovery_is_due(steps));
    }
    lemma_block_recovery(block, stored, first, second);
    assert(is_part_of(block_shards(stored.data, stored.fec, block.base), block.shards));
    assert(block_agrees(after, block.base, block.shards));
    assert forall|i: int|
        0 <= i < 4 && after.data.contains_key(
            #[trigger] block.number(i),
        ) implies after.data[block.number(i)] == block.packet(i) by {
        assert(block.number(i) == in_block(block.base, i));
    }
}

/// Taking a data packet in while the block arrives.
proof fn lemma_block_data(
    block: SentBlock,
    before: AudioView,
    steps: Seq<BlockStep>,
    after: AudioView,
)
    requires
        block.wf(),
        steps.len() > 0,
        arrive_once(steps),
        block.is_recoverable() || !recovery_is_due(steps),
        block_inv(block, before.encryption, before, steps.drop_last()),
        steps.last() matches BlockStep::Shard { index, bytes, result } && index < 4
            && block.is_shard(index, bytes) && is_handled(before, bytes, after, result),
    ensures
        block_inv(block, before.encryption, after, steps),
        after.data.contains_key(block.number(4)) ==> before.data.contains_key(block.number(4)),
        steps.last()->result is Ok,
{
    let past = steps.drop_last();
    let index = steps.last()->index;
    let bytes = steps.last()->bytes;
    let result = steps.last()->result;
    let first = arrives(past, 4);
    let second = arrives(past, 5);
    assert(forall|other: int|
        arrives(steps, other) == (arrives(past, other) || other == index));
    assert(outcomes(steps) == outcomes(past));
    lemma_parity_found(block, before.fec, first, second);
    lemma_numbers_differ(block);
    let number = block.number(index);
    let packet = packet_of(bytes);
    lemma_carries_data(bytes, number, block.packet(index).timestamp, block.shards[index]);
    assert(packet == block.packet(index));
    let stored = with_data(before, number, packet);
    assert(stored == with_datagram(before, bytes));
    assert((after, result) == after_data(before, number, packet));
    if is_behind(number, before.current) {
        assert(index < outcomes(past).len());
        assert(before.data.contains_key(number));
        assert(is_complete(block, before.data));
    } else {
        assert(holds_data(block, stored.data));
        assert(stored_inv(block, before.encryption, stored, steps));
        if first || second {
            lemma_block_stored(block, steps, stored, after);
        } else {
            assert(after == stored);
            if arrivals(steps) >= 4 {
                assert forall|i: int| 0 <= i < 4 implies stored.data.contains_key(
                    #[trigger] block.number(i),
                ) by {
                    assert(i == 0 || i == 1 || i == 2 || i == 3);
                }
            }
        }
    }
}

/// Taking a parity packet in while the block arrives.
proof fn lemma_block_parity(
    block: SentBlock,
    before: AudioView,
    steps: Seq<BlockStep>,
    after: AudioView,
)
    requires
        block.wf(),
        steps.len() > 0,
        arrive_once(steps),
        block.is_recoverable() || !recovery_is_due(steps),
        block_inv(block, before.encryption, before, steps.drop_last()),
        steps.last() matches BlockStep::Shard { index, bytes, result } && index >= 4
            && block.is_shard(index, bytes) && is_handled(before, bytes, after, result),
    ensures
        block_inv(block, before.encryption, after, steps),
        after.data.contains_key(block.number(4)) ==> before.data.contains_key(block.number(4)),
        steps.last()->result is Ok,
{
    let past = steps.drop_last();
    let index = steps.last()->index;
    let bytes = steps.last()->bytes;
    let result = steps.last()->result;
    let first = arrives(past, 4);
    let second = arrives(past, 5);
    assert(forall|other: int|
        arrives(steps, other) == (arrives(past, other) || other == index));
    assert(outcomes(steps) == outcomes(past));
    let packet = parity_of(bytes);
    lemma_carries_parity(bytes, bytes[12], block.base, block.start, block.shards[index]);
    assert(block.is_parity(packet, index == 5));
    let stored = with_fec(before, packet);
    assert(stored == with_datagram(before, bytes));
    assert((after, result) == after_fec(before, packet));
    lemma_parity_stored(block, before.fec, first, second, packet, index == 5);
    lemma_inserted_keeps_order(before.fec, packet);
    assert(stored == (AudioView { fec: fec_inserted(before.fec, packet), ..before }));
    assert(stored_inv(block, before.encryption, stored, steps));
    lemma_block_stored(block, steps, stored, after);
}

/// The first steps of a run are a run.
proof fn lemma_block_run_begins<C: CryptoBackend>(
    block: SentBlock,
    backend: C,
    views: Seq<AudioView>,
    steps: Seq<BlockStep>,
)
    requires
        is_block_run(block, backend, views, steps),
        steps.len() > 0,
    ensures
        is_block_run(block, backend, views.drop_last(), steps.drop_last()),
        is_block_step(
            block,
            backend,
            views.drop_last().last(),
            steps.last(),
            views.last(),
        ),
{
    let past = steps.drop_last();
    let states = views.drop_last();
    assert forall|j: int| 0 <= j < past.len() implies is_block_step(
        block,
        backend,
        states[j],
        #[trigger] past[j],
        states[j + 1],
    ) by {
        assert(past[j] == steps[j]);
    }
    assert(steps[steps.len() - 1] == steps.last());
}

/// What holds along a whole run, until frames of other blocks are given out.
proof fn lemma_block_run<C: CryptoBackend>(
    block: SentBlock,
    backend: C,
    views: Seq<AudioView>,
    steps: Seq<BlockStep>,
)
    requires
        block.wf(),
        is_block_run(block, backend, views, steps),
        arrive_once(steps),
        block.is_recoverable() || !recovery_is_due(steps),
        outcomes(steps).len() <= 4,
    ensures
        block_inv(block, views[0].encryption, views.last(), steps),
        views.last().data.contains_key(block.number(4)) ==> views[0].data.contains_key(
            block.number(4),
        ),
        forall|i: int|
            0 <= i < outcomes(steps).len() ==> #[trigger] outcomes(steps)[i] == block.outcome(
                views[0].encryption,
                backend,
                i,
            ),
        forall|j: int|
            0 <= j < steps.len() ==> (#[trigger] steps[j] matches BlockStep::Shard { result, .. }
                ==> result is Ok),
    decreases steps.len(),
{
    if steps.len() > 0 {
        let past = steps.drop_last();
        let states = views.drop_last();
        lemma_block_run_begins(block, backend, views, steps);
        lemma_block_run(block, backend, states, past);
        match steps.last() {
            BlockStep::Shard { index, .. } => if index < 4 {
                lemma_block_data(block, states.last(), steps, views.last());
            } else {
                lemma_block_parity(block, states.last(), steps, views.last());
            },
            BlockStep::Poll { .. } => {
                lemma_poll_outcome(block, backend, states.last(), steps, views.last());
                lemma_block_poll(block, backend, states.last(), steps, views.last());
            },
        }
        assert forall|i: int| 0 <= i < outcomes(steps).len() implies #[trigger] outcomes(steps)[i]
            == block.outcome(views[0].encryption, backend, i) by {
            if i < outcomes(past).len() {
                assert(outcomes(steps)[i] == outcomes(past)[i]);
            }
        }
        assert forall|j: int| 0 <= j < steps.len() implies (
        #[trigger] steps[j] matches BlockStep::Shard { result, .. } ==> result is Ok) by {
            if j < past.len() {
                assert(past[j] == steps[j]);
            }
        }
    }
}

/// Where the packet right after the block is not there, no frame follows those
/// of the block.
proof fn lemma_block_ends<C: CryptoBackend>(
    block: SentBlock,
    backend: C,
    views: Seq<AudioView>,
    steps: Seq<BlockStep>,
)
    requires
        block.wf(),
        is_block_run(block, backend, views, steps),
        arrive_once(steps),
        block.is_recoverable() || !recovery_is_due(steps),
        !views[0].data.contains_key(block.number(4)),
    ensures
        outcomes(steps).len() <= 4,
    decreases steps.len(),
{
    if steps.len() > 0 {
        lemma_block_run_begins(block, backend, views, steps);
        lemma_block_ends(block, backend, views.drop_last(), steps.drop_last());
        lemma_block_run(block, backend, views.drop_last(), steps.drop_last());
    }
}

/// The turn has come to a block, wherever in the stream, which may be encrypted.
/// Its shards arrive, each once and in any order, and frames are asked for in
/// between; where the packet right after the block is there already, only until
/// four frames were given out. Then no shard is refused, and what asking comes
/// to is the frames of the block, in order, with their timestamps and decrypted.
/// If four shards have arrived, whichever they are, all four data packets are
/// stored as they were sent, and by the time that no frame is left all four
/// frames were given out.
pub proof fn law_any_four_shards_complete_the_block<C: CryptoBackend>(
    block: SentBlock,
    backend: C,
    views: Seq<AudioView>,
    steps: Seq<BlockStep>,
)
    requires
        block.wf(),
        is_block_run(block, backend, views, steps),
        arrive_once(steps),
        block.is_recoverable() || !recovery_is_due(steps),
        !views[0].data.contains_key(block.number(4)) || outcomes(steps).len() <= 4,
    ensures
        forall|j: int|
            0 <= j < steps.len() ==> (#[trigger] steps[j] matches BlockStep::Shard { result, .. }
                ==> result is Ok),
        outcomes(steps).len() <= 4,
        forall|i: int|
            0 <= i < outcomes(steps).len() ==> #[trigger] outcomes(steps)[i] == block.outcome(
                views[0].encryption,
                backend,
                i,
            ),
        arrivals(steps) >= 4 ==> forall|i: int|
            0 <= i < 4 ==> views.last().data.contains_key(#[trigger] block.number(i))
                && views.last().data[block.number(i)] == block.packet(i),
        arrivals(steps) >= 4 && steps.len() > 0 && (
        steps.last() matches BlockStep::Poll { frame: Ok(None) }) ==> outcomes(steps).len() == 4,
{
    if !views[0].data.contains_key(block.number(4)) {
        lemma_block_ends(block, backend, views, steps);
    }
    lemma_block_run(block, backend, views, steps);
    if steps.len() > 0 && (steps.last() matches BlockStep::Poll { frame: Ok(None) }) {
        lemma_block_run_begins(block, backend, views, steps);
        lemma_block_run(block, backend, views.drop_last(), steps.drop_last());
        lemma_poll_outcome(block, backend, views.drop_last().last(), steps, views.last());
    }
}

/// As long as nothing is encrypted, asking for frames never fails.
proof fn lemma_frames_are_outcomes<C: CryptoBackend>(
    block: SentBlock,
    backend: C,
    views: Seq<AudioView>,
    steps: Seq<BlockStep>,
)
    requires
        is_block_run(block, backend, views, steps),
        views[0].encryption is None,
    ensures
        views.last().encryption is None,
        frames_given(steps).len() == outcomes(steps).len(),
        forall|i: int|
            0 <= i < outcomes(steps).len() ==> #[trigger] outcomes(steps)[i] == Ok::<
                FrameView,
                AudioDepayloaderError,
            >(frames_given(steps)[i]),
    decreases steps.len(),
{
    if steps.len() > 0 {
        let past = steps.drop_last();
        lemma_block_run_begins(block, backend, views, steps);
        lemma_frames_are_outcomes(block, backend, views.drop_last(), past);
        assert forall|i: int| 0 <= i < outcomes(steps).len() implies #[trigger] outcomes(steps)[i]
            == Ok::<FrameView, AudioDepayloaderError>(frames_given(steps)[i]) by {
            if i < outcomes(past).len() {
                assert(outcomes(steps)[i] == outcomes(past)[i]);
            }
        }
    }
}

/// The same of a stream that is not encrypted: no asking fails, and the frames
/// that are given out are those of the block.
pub proof fn law_any_four_shards_give_four_frames<C: CryptoBackend>(
    block: SentBlock,
    backend: C,
    views: Seq<AudioView>,
    steps: Seq<BlockStep>,
)
    requires
        block.wf(),
        is_block_run(block, backend, views, steps),
        views[0].encryption is None,
        arrive_once(steps),
        block.is_recoverable() || !recovery_is_due(steps),
        !views[0].data.contains_key(block.number(4)) || frames_given(steps).len() <= 4,
    ensures
        forall|j: int|
            0 <= j < steps.len() ==> (#[trigger] steps[j] matches BlockStep::Shard { result, .. }
                ==> result is Ok),
        frames_given(steps).len() <= 4,
        forall|i: int|
            0 <= i < frames_given(steps).len() ==> #[trigger] frames_given(steps)[i]
                == block.frame(i),
        arrivals(steps) >= 4 && steps.len() > 0 && (
        steps.last() matches BlockStep::Poll { frame: Ok(None) }) ==> frames_given(steps).len()
            == 4,
{
    lemma_frames_are_outcomes(block, backend, views, steps);
    law_any_four_shards_complete_the_block(block, backend, views, steps);
    assert forall|i: int| 0 <= i < frames_given(steps).len() implies #[trigger] frames_given(
        steps,
    )[i] == block.frame(i) by {
        assert(outcomes(steps)[i] == block.outcome(views[0].encryption, backend, i));
    }
}

} // verus!
