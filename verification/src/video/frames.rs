//! The frames that are being reassembled from datagrams.

use vstd::prelude::*;

use crate::search::{first_where, lemma_first_where, lemma_first_where_meaning};

verus! {

/// The number of a frame; frames are numbered in the order in which they were
/// encoded.
#[derive(Debug, Clone, Copy, PartialEq, Eq, Structural)]
pub struct FrameIndex(pub u32);

/// What a frame needs for being decoded.
#[derive(Debug, Clone, Copy, PartialEq, Eq, Structural)]
pub enum FrameType {
    /// Needs the frames before.
    PFrame,
    /// Can be decoded on its own: decoding can start here.
    Idr,
    /// Needs the frames before, and replaces a part of the picture.
    IntraRefresh,
    /// Needs the frames before that have not been declared lost.
    PFrameAfterInvalidation,
}

/// A frame that is complete.
#[derive(Debug)]
pub struct OwnedVideoFrame {
    pub frame_index: FrameIndex,
    pub frame_type: FrameType,
    pub data: Vec<u8>,
}

/// A frame of which at least one datagram has arrived.
#[derive(Debug)]
pub struct KnownFrame {
    pub index: FrameIndex,
    /// The frame itself once all of it has arrived.
    pub frame: Option<OwnedVideoFrame>,
}

/// The most frames that are looked at when old ones are dropped.
pub const DISCARD_LIMIT: usize = 200;

pub open spec fn is_known(frames: Seq<KnownFrame>, index: FrameIndex) -> bool {
    exists|i: int| 0 <= i < frames.len() && (#[trigger] frames[i]).index == index
}

pub open spec fn is_available(frames: Seq<KnownFrame>, index: FrameIndex) -> bool {
    exists|i: int|
        0 <= i < frames.len() && (#[trigger] frames[i]).index == index && frames[i].frame is Some
}

/// No frame is listed twice, and each is listed under its own number.
pub open spec fn frames_wf(frames: Seq<KnownFrame>) -> bool {
    &&& forall|i: int, j: int|
        0 <= i < j < frames.len() ==> (#[trigger] frames[i]).index != (#[trigger] frames[j]).index
    &&& forall|i: int|
        0 <= i < frames.len() ==> ((#[trigger] frames[i]).frame matches Some(frame)
            ==> frame.frame_index == frames[i].index)
}

/// Whether decoding can start at a listed frame.
pub open spec fn is_available_idr(known: KnownFrame) -> bool {
    known.frame matches Some(frame) && frame.frame_type == FrameType::Idr
}

/// The last listed frame at which decoding can start.
pub open spec fn last_idr(frames: Seq<KnownFrame>) -> Option<FrameIndex>
    decreases frames.len(),
{
    if frames.len() == 0 {
        None
    } else if is_available_idr(frames.last()) {
        Some(frames.last().index)
    } else {
        last_idr(frames.drop_last())
    }
}

/// A frame at which decoding can start is complete.
pub proof fn lemma_last_idr(frames: Seq<KnownFrame>)
    ensures
        match last_idr(frames) {
            Some(index) => exists|i: int|
                0 <= i < frames.len() && (#[trigger] frames[i]).index == index && is_available_idr(
                    frames[i],
                ),
            None => forall|i: int| 0 <= i < frames.len() ==> !is_available_idr(#[trigger] frames[i]),
        },
        last_idr(frames) matches Some(index) ==> is_available(frames, index),
    decreases frames.len(),
{
    if frames.len() > 0 {
        let rest = frames.drop_last();
        if is_available_idr(frames.last()) {
            assert(frames[frames.len() - 1] == frames.last());
        } else {
            lemma_last_idr(rest);
            match last_idr(rest) {
                Some(index) => {
                    let i = choose|i: int|
                        0 <= i < rest.len() && (#[trigger] rest[i]).index == index
                            && is_available_idr(rest[i]);
                    assert(frames[i] == rest[i]);
                },
                None => {
                    assert forall|i: int| 0 <= i < frames.len() implies !is_available_idr(
                        #[trigger] frames[i],
                    ) by {
                        if i < rest.len() {
                            assert(rest[i] == frames[i]);
                        }
                    }
                },
            }
        }
    }
}

/// The frames that are left when those before `current` are dropped. Only so
/// many are looked at.
pub open spec fn without_old(frames: Seq<KnownFrame>, current: FrameIndex) -> Seq<KnownFrame> {
    let looked_at = if frames.len() < DISCARD_LIMIT {
        frames.len() as int
    } else {
        DISCARD_LIMIT as int
    };
    frames.take(looked_at).filter(|known: KnownFrame| known.index.0 >= current.0) + frames.skip(
        looked_at,
    )
}

/// The numbers of the frames that are dropped when those before `current` are,
/// in the order in which they are listed.
pub open spec fn dropped_old(frames: Seq<KnownFrame>, current: FrameIndex) -> Seq<FrameIndex> {
    let looked_at = if frames.len() < DISCARD_LIMIT {
        frames.len() as int
    } else {
        DISCARD_LIMIT as int
    };
    frames.take(looked_at).filter(|known: KnownFrame| known.index.0 < current.0).map_values(
        |known: KnownFrame| known.index,
    )
}

/// The frames after one was taken out.
pub open spec fn without(frames: Seq<KnownFrame>, index: FrameIndex) -> Seq<KnownFrame> {
    frames.remove(position(frames, index))
}

/// Where a frame is listed.
pub open spec fn position(frames: Seq<KnownFrame>, index: FrameIndex) -> int {
    first_where(frames, |known: KnownFrame| known.index == index) as int
}

/// Dropping old frames keeps the list well formed.
pub proof fn lemma_without_old_wf(frames: Seq<KnownFrame>, current: FrameIndex)
    requires
        frames_wf(frames),
    ensures
        frames_wf(without_old(frames, current)),
        forall|i: int|
            0 <= i < without_old(frames, current).len() ==> frames.contains(
                #[trigger] without_old(frames, current)[i],
            ),
        frames.len() <= DISCARD_LIMIT ==> forall|i: int|
            0 <= i < without_old(frames, current).len() ==> (#[trigger] without_old(
                frames,
                current,
            )[i]).index.0 >= current.0,
{
    let n = if frames.len() < DISCARD_LIMIT {
        frames.len() as int
    } else {
        DISCARD_LIMIT as int
    };
    let keep = |known: KnownFrame| known.index.0 >= current.0;
    let front = frames.take(n);
    let back = frames.skip(n);
    assert(frames_wf(front)) by {
        assert forall|i: int, j: int| 0 <= i < j < front.len() implies (#[trigger] front[i]).index
            != (#[trigger] front[j]).index by {
            assert(frames[i].index != frames[j].index);
        }
        assert forall|i: int| 0 <= i < front.len() implies ((#[trigger] front[i]).frame matches Some(
            frame,
        ) ==> frame.frame_index == front[i].index) by {
            assert(frames[i] == front[i]);
        }
    }
    lemma_filter_wf(front, keep);
    let kept = front.filter(keep);
    let out = kept + back;
    assert forall|i: int| 0 <= i < out.len() implies frames.contains(#[trigger] out[i]) by {
        if i < kept.len() {
            assert(front.contains(kept[i]));
            let k = choose|k: int| 0 <= k < front.len() && front[k] == kept[i];
            assert(frames[k] == out[i]);
        } else {
            assert(frames[n + i - kept.len()] == out[i]);
        }
    }
    assert forall|i: int, j: int| 0 <= i < j < out.len() implies (#[trigger] out[i]).index != (
    #[trigger] out[j]).index by {
        if j < kept.len() {
            assert(kept[i].index != kept[j].index);
        } else if i >= kept.len() {
            assert(frames[n + i - kept.len()].index != frames[n + j - kept.len()].index);
        } else {
            assert(front.contains(kept[i]));
            let k = choose|k: int| 0 <= k < front.len() && front[k] == kept[i];
            assert(frames[k].index != frames[n + j - kept.len()].index);
        }
    }
    assert forall|i: int| 0 <= i < out.len() implies ((#[trigger] out[i]).frame matches Some(frame)
        ==> frame.frame_index == out[i].index) by {
        assert(frames.contains(out[i]));
    }
}

/// Whether some listed frame comes after `current`.
pub open spec fn some_later(frames: Seq<KnownFrame>, current: FrameIndex) -> bool {
    exists|i: int| 0 <= i < frames.len() && (#[trigger] frames[i]).index.0 > current.0
}

/// What a frame that is kept by a filter was in the list before.
pub proof fn lemma_filter_wf(frames: Seq<KnownFrame>, keep: spec_fn(KnownFrame) -> bool)
    requires
        frames_wf(frames),
    ensures
        frames_wf(frames.filter(keep)),
        forall|i: int|
            0 <= i < frames.filter(keep).len() ==> frames.contains(
                #[trigger] frames.filter(keep)[i],
            ) && keep(frames.filter(keep)[i]),
    decreases frames.len(),
{
    reveal(Seq::filter);
    if frames.len() > 0 {
        let rest = frames.drop_last();
        assert(frames_wf(rest)) by {
            assert forall|i: int, j: int| 0 <= i < j < rest.len() implies (#[trigger] rest[i]).index
                != (#[trigger] rest[j]).index by {
                assert(frames[i].index != frames[j].index);
            }
            assert forall|i: int| 0 <= i < rest.len() implies ((#[trigger] rest[i]).frame matches Some(
                frame,
            ) ==> frame.frame_index == rest[i].index) by {
                assert(frames[i] == rest[i]);
            }
        }
        lemma_filter_wf(rest, keep);
        let out = frames.filter(keep);
        let before = rest.filter(keep);
        assert forall|i: int| 0 <= i < out.len() implies frames.contains(#[trigger] out[i]) && keep(
            out[i],
        ) by {
            if i < before.len() {
                assert(rest.contains(before[i]));
                let k = choose|k: int| 0 <= k < rest.len() && rest[k] == before[i];
                assert(frames[k] == out[i]);
            } else {
                assert(frames[frames.len() - 1] == out[i]);
            }
        }
        assert forall|i: int, j: int| 0 <= i < j < out.len() implies (#[trigger] out[i]).index != (
        #[trigger] out[j]).index by {
            if j >= before.len() {
                assert(rest.contains(before[i]));
                let k = choose|k: int| 0 <= k < rest.len() && rest[k] == before[i];
                assert(frames[k].index != frames[frames.len() - 1].index);
            } else {
                assert(before[i].index != before[j].index);
            }
        }
        assert forall|i: int| 0 <= i < out.len() implies ((#[trigger] out[i]).frame matches Some(frame)
            ==> frame.frame_index == out[i].index) by {
            assert(frames.contains(out[i]));
        }
    }
}

/// The list after a datagram of a frame arrived.
pub open spec fn with_seen(frames: Seq<KnownFrame>, index: FrameIndex) -> Seq<KnownFrame> {
    if is_known(frames, index) {
        frames
    } else {
        frames.push(KnownFrame { index, frame: None })
    }
}

/// The list after a frame was completed.
pub open spec fn with_complete(frames: Seq<KnownFrame>, frame: OwnedVideoFrame) -> Seq<KnownFrame> {
    let index = frame.frame_index;
    let known = KnownFrame { index, frame: Some(frame) };
    if is_known(frames, index) {
        frames.update(position(frames, index), known)
    } else {
        frames.push(known)
    }
}

/// A frame that is listed is found where it is listed first.
pub proof fn lemma_position(frames: Seq<KnownFrame>, index: FrameIndex)
    ensures
        is_known(frames, index) == (position(frames, index) < frames.len()),
        position(frames, index) <= frames.len(),
        position(frames, index) < frames.len() ==> frames[position(frames, index)].index == index,
        frames_wf(frames) ==> forall|i: int|
            0 <= i < frames.len() && (#[trigger] frames[i]).index == index ==> position(
                frames,
                index,
            ) == i,
{
    let pred = |known: KnownFrame| known.index == index;
    lemma_first_where_meaning(frames, pred);
    let at = position(frames, index);
    if is_known(frames, index) {
        let i = choose|i: int| 0 <= i < frames.len() && (#[trigger] frames[i]).index == index;
        assert(pred(frames[i]));
    }
    if frames_wf(frames) {
        assert forall|i: int| 0 <= i < frames.len() && (#[trigger] frames[i]).index
            == index implies at == i by {
            assert(pred(frames[i]));
            if at != i {
                assert(frames[at].index == index);
            }
        }
    }
}

/// A list stays well formed when a frame that it does not have is added.
proof fn lemma_push_wf(frames: Seq<KnownFrame>, known: KnownFrame)
    requires
        frames_wf(frames),
        !is_known(frames, known.index),
        known.frame matches Some(frame) ==> frame.frame_index == known.index,
    ensures
        frames_wf(frames.push(known)),
{
    let out = frames.push(known);
    assert forall|i: int, j: int| 0 <= i < j < out.len() implies (#[trigger] out[i]).index != (
    #[trigger] out[j]).index by {
        assert(out[i] == frames[i]);
        if j < frames.len() {
            assert(out[j] == frames[j]);
        }
    }
    assert forall|i: int| 0 <= i < out.len() implies ((#[trigger] out[i]).frame matches Some(frame)
        ==> frame.frame_index == out[i].index) by {
        if i < frames.len() {
            assert(out[i] == frames[i]);
        }
    }
}

/// Noting that something of a frame arrived keeps the list well formed.
pub proof fn lemma_seen_wf(frames: Seq<KnownFrame>, index: FrameIndex)
    requires
        frames_wf(frames),
    ensures
        frames_wf(with_seen(frames, index)),
{
    if !is_known(frames, index) {
        lemma_push_wf(frames, KnownFrame { index, frame: None });
    }
}

/// Noting that a frame is complete keeps the list well formed.
pub proof fn lemma_complete_wf(frames: Seq<KnownFrame>, frame: OwnedVideoFrame)
    requires
        frames_wf(frames),
    ensures
        frames_wf(with_complete(frames, frame)),
{
    let index = frame.frame_index;
    let known = KnownFrame { index, frame: Some(frame) };
    if is_known(frames, index) {
        lemma_position(frames, index);
        let at = position(frames, index);
        let out = frames.update(at, known);
        assert forall|i: int, j: int| 0 <= i < j < out.len() implies (#[trigger] out[i]).index != (
        #[trigger] out[j]).index by {
            assert(out[i].index == frames[i].index && out[j].index == frames[j].index);
        }
        assert forall|i: int| 0 <= i < out.len() implies ((#[trigger] out[i]).frame matches Some(
            frame,
        ) ==> frame.frame_index == out[i].index) by {
            if i != at {
                assert(out[i] == frames[i]);
            }
        }
    } else {
        lemma_push_wf(frames, known);
    }
}

/// Taking a frame out keeps the list well formed, and the frame is gone.
pub proof fn lemma_without_wf(frames: Seq<KnownFrame>, index: FrameIndex)
    requires
        frames_wf(frames),
        is_known(frames, index),
    ensures
        frames_wf(without(frames, index)),
        !is_known(without(frames, index), index),
{
    lemma_position(frames, index);
    let at = position(frames, index);
    let out = without(frames, index);
    assert forall|i: int| 0 <= i < out.len() implies (#[trigger] out[i]) == frames[if i < at {
        i
    } else {
        i + 1
    }] && out[i].index != index by {
        let k = if i < at {
            i
        } else {
            i + 1
        };
        assert(out[i] == frames[k]);
        assert(frames[k].index != frames[at].index);
    }
    assert forall|i: int, j: int| 0 <= i < j < out.len() implies (#[trigger] out[i]).index != (
    #[trigger] out[j]).index by {
        let k = if i < at {
            i
        } else {
            i + 1
        };
        let l = if j < at {
            j
        } else {
            j + 1
        };
        assert(out[i] == frames[k] && out[j] == frames[l]);
        assert(frames[k].index != frames[l].index);
    }
    assert forall|i: int| 0 <= i < out.len() implies ((#[trigger] out[i]).frame matches Some(frame)
        ==> frame.frame_index == out[i].index) by {
        let k = if i < at {
            i
        } else {
            i + 1
        };
        assert(out[i] == frames[k]);
    }
}

/// The frames of which something has arrived and that were neither taken nor
/// dropped, in the order in which they were first seen.
#[derive(Debug)]
pub struct FrameQueue {
    frames: Vec<KnownFrame>,
}

impl View for FrameQueue {
    type V = Seq<KnownFrame>;

    closed spec fn view(&self) -> Seq<KnownFrame> {
        self.frames@
    }
}

impl FrameQueue {
    /// A list of no frames.
    pub fn new() -> (queue: FrameQueue)
        ensures
            queue@ == Seq::<KnownFrame>::empty(),
            frames_wf(queue@),
    {
        FrameQueue { frames: Vec::new() }
    }

    /// The number of frames.
    pub fn len(&self) -> (len: usize)
        ensures
            len == self@.len(),
    {
        self.frames.len()
    }

    /// The number of the `i`th frame.
    pub fn index_at(&self, i: usize) -> (index: FrameIndex)
        requires
            i < self@.len(),
        ensures
            index == self@[i as int].index,
    {
        self.frames[i].index
    }

    fn find(&self, index: FrameIndex) -> (at: usize)
        ensures
            at == position(self@, index),
            at <= self@.len(),
            (at < self@.len()) == is_known(self@, index),
            at < self@.len() ==> self@[at as int].index == index,
    {
        let ghost pred = |known: KnownFrame| known.index == index;
        let mut at: usize = 0;
        while at < self.frames.len() && self.frames[at].index.0 != index.0
            invariant
                at <= self.frames@.len(),
                pred == (|known: KnownFrame| known.index == index),
                forall|j: int| 0 <= j < at ==> !pred(#[trigger] self.frames@[j]),
            decreases self.frames@.len() - at,
        {
            at = at + 1;
        }
        proof {
            lemma_first_where(self@, pred, at as nat);
            if at == self@.len() && is_known(self@, index) {
                let j = choose|j: int| 0 <= j < self@.len() && (#[trigger] self@[j]).index == index;
                assert(!pred(self@[j]));
            }
        }
        at
    }

    /// Whether something of a frame has arrived.
    pub fn is_frame_known(&self, index: FrameIndex) -> (known: bool)
        ensures
            known == is_known(self@, index),
    {
        self.find(index) < self.frames.len()
    }

    /// Whether all of a frame has arrived.
    pub fn is_frame_available(&self, index: FrameIndex) -> (available: bool)
        requires
            frames_wf(self@),
        ensures
            available == is_available(self@, index),
    {
        let at: usize = self.find(index);
        proof {
            if is_available(self@, index) {
                let j = choose|j: int|
                    0 <= j < self@.len() && (#[trigger] self@[j]).index == index
                        && self@[j].frame is Some;
                assert(is_known(self@, index));
                assert(j == at);
            }
        }
        at < self.frames.len() && self.frames[at].frame.is_some()
    }

    /// Whether some frame comes after `current`.
    pub fn has_later(&self, current: FrameIndex) -> (later: bool)
        ensures
            later == some_later(self@, current),
    {
        let mut i: usize = 0;
        while i < self.frames.len()
            invariant
                i <= self.frames@.len(),
                forall|j: int| 0 <= j < i ==> (#[trigger] self.frames@[j]).index.0 <= current.0,
            decreases self.frames@.len() - i,
        {
            if self.frames[i].index.0 > current.0 {
                return true;
            }
            i = i + 1;
        }
        false
    }

    /// The last listed frame at which decoding can start.
    pub fn find_idr(&self) -> (index: Option<FrameIndex>)
        ensures
            index == last_idr(self@),
    {
        let mut i: usize = self.frames.len();
        assert(self@.take(i as int) =~= self@);
        while i > 0
            invariant
                i <= self.frames@.len(),
                last_idr(self@) == last_idr(self@.take(i as int)),
            decreases i,
        {
            let known = &self.frames[i - 1];
            assert(self@.take(i as int).last() == *known);
            assert(self@.take(i as int).drop_last() =~= self@.take(i - 1));
            if let Some(frame) = &known.frame {
                if frame.frame_type == FrameType::Idr {
                    return Some(known.index);
                }
            }
            i = i - 1;
        }
        None
    }

    /// Notes that a datagram of a frame has arrived.
    pub fn see(&mut self, index: FrameIndex)
        requires
            frames_wf(old(self)@),
        ensures
            frames_wf(final(self)@),
            final(self)@ == with_seen(old(self)@, index),
    {
        proof {
            lemma_seen_wf(self@, index);
        }
        if !self.is_frame_known(index) {
            self.frames.push(KnownFrame { index, frame: None });
        }
    }

    /// Notes that all of a frame has arrived.
    pub fn complete(&mut self, frame: OwnedVideoFrame)
        requires
            frames_wf(old(self)@),
        ensures
            frames_wf(final(self)@),
            final(self)@ == with_complete(old(self)@, frame),
    {
        proof {
            lemma_complete_wf(self@, frame);
        }
        let index = frame.frame_index;
        let at: usize = self.find(index);
        let known = KnownFrame { index, frame: Some(frame) };
        if at < self.frames.len() {
            self.frames.set(at, known);
        } else {
            self.frames.push(known);
        }
    }

    /// Takes a frame out if it is complete.
    pub fn take_frame(&mut self, index: FrameIndex) -> (frame: Option<OwnedVideoFrame>)
        requires
            frames_wf(old(self)@),
        ensures
            frames_wf(final(self)@),
            is_available(old(self)@, index) ==> {
                &&& frame == old(self)@[position(old(self)@, index)].frame
                &&& frame is Some
                &&& final(self)@ == without(old(self)@, index)
            },
            !is_available(old(self)@, index) ==> frame is None && final(self)@ == old(self)@,
    {
        if !self.is_frame_available(index) {
            return None;
        }
        let at: usize = self.find(index);
        proof {
            let j = choose|j: int|
                0 <= j < self@.len() && (#[trigger] self@[j]).index == index
                    && self@[j].frame is Some;
            assert(is_known(self@, index));
            assert(j == at);
            lemma_without_wf(self@, index);
        }
        self.frames.remove(at).frame
    }

    /// Drops frames that come before `current`, and returns their numbers.
    pub fn discard_before(&mut self, current: FrameIndex) -> (dropped: Vec<FrameIndex>)
        requires
            frames_wf(old(self)@),
        ensures
            frames_wf(final(self)@),
            final(self)@ == without_old(old(self)@, current),
            dropped@ == dropped_old(old(self)@, current),
    {
        let ghost all = self.frames@;
        let ghost keep = |known: KnownFrame| known.index.0 >= current.0;
        let ghost stale = |known: KnownFrame| known.index.0 < current.0;
        let ghost number = |known: KnownFrame| known.index;
        let mut dropped: Vec<FrameIndex> = Vec::new();
        let mut looked_at: usize = 0;
        let mut i: usize = 0;
        assert(all.take(0).filter(keep) =~= Seq::empty() && all.take(0).filter(stale)
            =~= Seq::empty()) by {
            reveal(Seq::filter);
        }
        assert(all =~= all.take(0).filter(keep) + all.skip(0));
        while looked_at < DISCARD_LIMIT && i < self.frames.len()
            invariant
                looked_at <= DISCARD_LIMIT,
                looked_at <= all.len(),
                keep == (|known: KnownFrame| known.index.0 >= current.0),
                stale == (|known: KnownFrame| known.index.0 < current.0),
                number == (|known: KnownFrame| known.index),
                i == all.take(looked_at as int).filter(keep).len(),
                self.frames@ == all.take(looked_at as int).filter(keep) + all.skip(
                    looked_at as int,
                ),
                dropped@ == all.take(looked_at as int).filter(stale).map_values(number),
            decreases DISCARD_LIMIT - looked_at,
        {
            let ghost kept = all.take(looked_at as int).filter(keep);
            let ghost gone = all.take(looked_at as int).filter(stale);
            let ghost known = all[looked_at as int];
            proof {
                reveal(Seq::filter);
                assert(all.take(looked_at + 1).drop_last() =~= all.take(looked_at as int));
                assert(all.take(looked_at + 1).last() == known);
                assert(self.frames@[i as int] == known);
            }
            if self.frames[i].index.0 < current.0 {
                dropped.push(self.frames.remove(i).index);
                assert(self.frames@ =~= kept + all.skip(looked_at + 1));
                assert(dropped@ =~= gone.push(known).map_values(number));
            } else {
                i = i + 1;
                assert(self.frames@ =~= kept.push(known) + all.skip(looked_at + 1));
            }
            looked_at = looked_at + 1;
        }
        proof {
            lemma_without_old_wf(all, current);
        }
        dropped
    }
}

} // verus!
