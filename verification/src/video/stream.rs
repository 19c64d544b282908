//! Gives out video frames in order, and asks for a new start when one is lost.

use std::collections::{HashMap, VecDeque};

use vstd::prelude::*;

use crate::audio::crypto::{AesKey, CryptoError};
use crate::audio::fec::FecError;
use crate::net::SocketAddr;
use crate::ping::{PingSender, PingSenderConfig, PingSenderState, PingView, SunshinePing};
use crate::time::{nanos_between, soonest, soonest_spec, Instant};
use crate::video::frames::{
    dropped_old, frames_wf, is_available, is_known, last_idr, lemma_last_idr, position, some_later,
    with_complete, with_seen, without, without_old, FrameIndex, FrameQueue, KnownFrame,
    OwnedVideoFrame,
};

verus! {

/// The time window a frame has for all packets to be received, in nanoseconds.
pub const FULL_FRAME_RECEIVE_TIMEOUT: u64 = 100_000_000;

/// A final timeout that is used when nothing happened, in nanoseconds.
pub const STALL_TIMEOUT: u64 = 2_000_000_000;

/// The time between each idr request, in nanoseconds.
pub const IDR_REQUEST_TIMEOUT: u64 = 1_000_000_000;

/// Why a datagram could not be taken apart.
#[derive(Debug, Clone, Copy, PartialEq, Eq, Structural)]
pub enum VideoDepayloaderError {
    BufferTooSmall,
    InvalidPacket,
    ReedSolomon(FecError),
}

#[derive(Debug, Clone, Copy, PartialEq, Eq, Structural)]
pub enum VideoStreamError {
    Depayloader(VideoDepayloaderError),
    Crypto(CryptoError),
}

#[derive(Debug)]
pub enum VideoStreamEvent {
    /// The next frame to decode.
    OnFrame(OwnedVideoFrame),
    /// The host has to be asked for a frame at which decoding can start.
    SignalIdr,
}

/// What a datagram told about the frame that it belongs to.
#[derive(Debug)]
pub enum FrameReport {
    /// It is a part of this frame, which is not complete yet.
    Seen(FrameIndex),
    /// With it, this frame is complete.
    Complete(OwnedVideoFrame),
}

#[derive(Debug, Clone, Copy)]
pub struct VideoStreamConfig {
    pub addr: SocketAddr,
    pub fps: u32,
    pub sunshine_ping: Option<SunshinePing>,
    pub sunshine_encryption: Option<AesKey>,
}

/// All that the behaviour of a [`VideoStream`] depends on.
#[verifier::ext_equal]
pub struct VideoView {
    pub addr: SocketAddr,
    pub last_now: Instant,
    pub ping: PingView,
    pub frames: Seq<KnownFrame>,
    pub first_frame: Option<Instant>,
    pub last_frame: Instant,
    /// The frame that is given out next.
    pub current_frame: Option<FrameIndex>,
    /// When something of a frame first arrived.
    pub first_seen: Map<u32, Instant>,
    pub waiting_for_idr_since: Option<Instant>,
    pub events: Seq<VideoStreamEvent>,
    /// The numbers of frames that were dropped and not yet told of.
    pub discarded: Seq<FrameIndex>,
}

/// How much of `limit` is left after the time from `since` to `now`.
pub open spec fn time_left(limit: u64, now: Instant, since: Instant) -> int {
    let passed = nanos_between(now.nanos as int, since.nanos as int);
    if passed < limit {
        limit - passed
    } else {
        0
    }
}

/// Whether `time` is when a frame after `current` was first seen, and none was
/// seen earlier.
pub open spec fn is_earliest_later(
    first_seen: Map<u32, Instant>,
    current: FrameIndex,
    time: Instant,
) -> bool {
    &&& exists|index: u32|
        #[trigger] first_seen.contains_key(index) && index > current.0 && first_seen[index] == time
    &&& forall|index: u32| #[trigger]
        first_seen.contains_key(index) && index > current.0 ==> time.nanos
            <= first_seen[index].nanos
}

/// Whether a frame after `current` has been seen.
pub open spec fn later_was_seen(first_seen: Map<u32, Instant>, current: FrameIndex) -> bool {
    exists|index: u32| #[trigger] first_seen.contains_key(index) && index > current.0
}

/// Since when the frame `current` is known to be on its way: since it was seen,
/// or, if all of it was lost, since a later one was.
pub open spec fn evidence(first_seen: Map<u32, Instant>, current: FrameIndex) -> Option<Instant> {
    if first_seen.contains_key(current.0) {
        Some(first_seen[current.0])
    } else if later_was_seen(first_seen, current) {
        Some(choose|time: Instant| is_earliest_later(first_seen, current, time))
    } else {
        None
    }
}

impl VideoView {
    /// How long to wait until the stream counts as broken: less than the full
    /// stall time if the frame that is due has been on its way for long.
    pub open spec fn wait_until_idr(self) -> int {
        let stall = time_left(STALL_TIMEOUT, self.last_now, self.last_frame);
        match self.current_frame {
            None => stall,
            Some(current) => match evidence(self.first_seen, current) {
                Some(since) => {
                    let drop = time_left(FULL_FRAME_RECEIVE_TIMEOUT, self.last_now, since);
                    if (some_later(self.frames, current) || is_known(self.frames, current)) && drop
                        < stall {
                        drop
                    } else {
                        stall
                    }
                },
                None => stall,
            },
        }
    }

    /// Whether a new start has to be asked for now: the stream is broken, and
    /// the last request is long enough ago.
    pub open spec fn must_request_idr(self) -> bool {
        &&& self.wait_until_idr() == 0
        &&& self.waiting_for_idr_since matches Some(last) ==> nanos_between(
            self.last_now.nanos as int,
            last.nanos as int,
        ) >= IDR_REQUEST_TIMEOUT
    }

    /// The state after a new start was asked for, if it had to be.
    pub open spec fn after_idr_request(self) -> VideoView {
        if self.must_request_idr() {
            VideoView {
                waiting_for_idr_since: Some(self.last_now),
                events: self.events.push(VideoStreamEvent::SignalIdr),
                ..self
            }
        } else {
            self
        }
    }

    /// Whether the stream looks for a frame at which decoding can start.
    pub open spec fn is_searching(self) -> bool {
        self.waiting_for_idr_since is Some || self.current_frame is None
    }

    /// The frames without those that come before the one that is due.
    pub open spec fn fresh_frames(self) -> Seq<KnownFrame> {
        match self.current_frame {
            Some(current) => without_old(self.frames, current),
            None => self.frames,
        }
    }

    /// The numbers of the frames that come before the one that is due.
    pub open spec fn stale_frames(self) -> Seq<FrameIndex> {
        match self.current_frame {
            Some(current) => dropped_old(self.frames, current),
            None => Seq::empty(),
        }
    }

    /// The frame that is given out: one at which decoding can start, if that is
    /// looked for, or else the one that is due.
    pub open spec fn next_frame(self) -> Option<FrameIndex> {
        let frames = self.fresh_frames();
        if self.is_searching() && last_idr(frames) is Some {
            last_idr(frames)
        } else {
            match self.current_frame {
                Some(current) => if is_available(frames, current) {
                    Some(current)
                } else {
                    None
                },
                None => None,
            }
        }
    }

    /// When something of each frame first arrived, if what is there now arrived
    /// by `now`.
    pub open spec fn seen_by(self, now: Instant) -> Map<u32, Instant> {
        Map::new(
            |index: u32|
                self.first_seen.contains_key(index) || is_known(self.frames, FrameIndex(index)),
            |index: u32|
                if self.first_seen.contains_key(index) {
                    self.first_seen[index]
                } else {
                    now
                },
        )
    }

    /// The state after looking for something to do at `now`.
    pub open spec fn after_update(self, now: Instant) -> VideoView {
        let frames = self.fresh_frames();
        match self.next_frame() {
            Some(index) => VideoView {
                frames: without(frames, index),
                first_frame: if self.first_frame is None {
                    Some(now)
                } else {
                    self.first_frame
                },
                last_frame: now,
                current_frame: Some(FrameIndex(index.0.wrapping_add(1))),
                first_seen: self.seen_by(now).filter_keys(|other: u32| other > index.0),
                waiting_for_idr_since: if last_idr(frames) is Some {
                    None
                } else {
                    self.waiting_for_idr_since
                },
                events: self.events.push(
                    VideoStreamEvent::OnFrame(frames[position(frames, index)].frame.unwrap()),
                ),
                discarded: self.discarded + self.stale_frames(),
                ..self
            },
            None => VideoView {
                frames,
                first_seen: self.seen_by(now),
                discarded: self.discarded + self.stale_frames(),
                ..self
            }.after_idr_request(),
        }
    }

    /// The state after it was told the time.
    pub open spec fn at(self, now: Instant) -> VideoView {
        VideoView { last_now: now, ping: self.ping.at(now), ..self }
    }

    /// The state after a datagram from `addr` arrived, and what is reported.
    pub open spec fn after_receive(
        self,
        now: Instant,
        addr: SocketAddr,
        reports: Result<Seq<FrameReport>, VideoDepayloaderError>,
    ) -> (VideoView, Result<(), VideoStreamError>) {
        let told = self.at(now);
        if addr != self.addr {
            (told.after_update(now), Ok(()))
        } else {
            let found = VideoView {
                ping: PingView { state: PingSenderState::Finished, ..told.ping },
                ..told
            };
            match reports {
                Ok(reports) => (
                    VideoView {
                        frames: with_reports(found.frames, reports),
                        ..found
                    }.after_update(now),
                    Ok(()),
                ),
                Err(error) => (found, Err(VideoStreamError::Depayloader(error))),
            }
        }
    }

    /// When the stream next has to be told the time.
    pub open spec fn deadline(self) -> Instant {
        match soonest_spec(self.ping.deadline(), Some(self.recovery())) {
            Some(deadline) => deadline,
            None => self.recovery(),
        }
    }

    /// When a new start has to be asked for at the earliest.
    pub open spec fn recovery(self) -> Instant {
        let broken = self.last_now.nanos + self.wait_until_idr();
        match self.waiting_for_idr_since {
            Some(last) => if broken < last.nanos + IDR_REQUEST_TIMEOUT {
                Instant { nanos: (last.nanos + IDR_REQUEST_TIMEOUT) as i64 }
            } else {
                Instant { nanos: broken as i64 }
            },
            None => Instant { nanos: broken as i64 },
        }
    }

    /// What holds of every stream between two calls: frames are listed once,
    /// and every deadline can be told.
    pub open spec fn wf(self) -> bool {
        &&& frames_wf(self.frames)
        &&& self.last_now.can_add(STALL_TIMEOUT as int)
        &&& self.waiting_for_idr_since matches Some(last) ==> last.can_add(
            IDR_REQUEST_TIMEOUT as int,
        )
    }
}

/// The frames after a datagram was taken apart.
pub open spec fn with_reports(frames: Seq<KnownFrame>, reports: Seq<FrameReport>) -> Seq<KnownFrame>
    decreases reports.len(),
{
    if reports.len() == 0 {
        frames
    } else {
        let before = with_reports(frames, reports.drop_last());
        match reports.last() {
            FrameReport::Seen(index) => with_seen(before, index),
            FrameReport::Complete(frame) => with_complete(before, frame),
        }
    }
}

/// How much of `limit` is left after the time from `since` to `now`.
fn remaining(limit: u64, now: Instant, since: Instant) -> (left: u64)
    ensures
        left == time_left(limit, now, since),
{
    limit.saturating_sub(now.since(since))
}

/// What is known after one more frame is looked at.
proof fn lemma_known_take(frames: Seq<KnownFrame>, i: int, index: FrameIndex)
    requires
        0 <= i < frames.len(),
    ensures
        is_known(frames.take(i + 1), index) == (is_known(frames.take(i), index) || frames[i].index
            == index),
        frames[i].index == index ==> is_known(frames, index),
{
    let longer = frames.take(i + 1);
    let shorter = frames.take(i);
    assert(longer[i] == frames[i]);
    if is_known(shorter, index) {
        let j = choose|j: int| 0 <= j < shorter.len() && (#[trigger] shorter[j]).index == index;
        assert(longer[j] == shorter[j]);
    }
    if is_known(longer, index) && frames[i].index != index {
        let j = choose|j: int| 0 <= j < longer.len() && (#[trigger] longer[j]).index == index;
        assert(shorter[j] == longer[j]);
    }
}

/// Forgets when frames up to `index` were first seen.
fn retain_later(first_seen: &mut HashMap<u32, Instant>, index: FrameIndex)
    ensures
        final(first_seen)@ == old(first_seen)@.filter_keys(|other: u32| other > index.0),
{
    let mut done: Vec<u32> = Vec::new();
    for other in it: first_seen.keys()
        invariant
            it.seq().unref().to_set() == first_seen@.dom(),
            forall|i: int| 0 <= i < done@.len() ==> #[trigger] done@[i] <= index.0,
            forall|i: int|
                0 <= i < it.index() && *(#[trigger] it.seq()[i]) <= index.0 ==> done@.contains(
                    *it.seq()[i],
                ),
    {
        let ghost before = done@;
        if *other <= index.0 {
            done.push(*other);
        }
        proof {
            assert forall|i: int|
                0 <= i < it.index() + 1 && *(#[trigger] it.seq()[i]) <= index.0 implies done@.contains(
                *it.seq()[i],
            ) by {
                if i < it.index() {
                    let at = choose|at: int| 0 <= at < before.len() && before[at] == *it.seq()[i];
                    assert(done@[at] == before[at]);
                } else {
                    assert(done@.last() == *it.seq()[i]);
                }
            }
        }
    }
    let ghost all = first_seen@;
    assert forall|other: u32| all.contains_key(other) && other <= index.0 implies done@.contains(
        other,
    ) by {
        assert(first_seen@.dom().contains(other));
    }
    let mut i: usize = 0;
    while i < done.len()
        invariant
            i <= done@.len(),
            forall|j: int| 0 <= j < done@.len() ==> #[trigger] done@[j] <= index.0,
            forall|other: u32| #[trigger]
                first_seen@.contains_key(other) ==> all.contains_key(other) && first_seen@[other]
                    == all[other],
            forall|other: u32| #[trigger]
                all.contains_key(other) && !first_seen@.contains_key(other) ==> other <= index.0,
            forall|j: int| 0 <= j < i ==> !first_seen@.contains_key(#[trigger] done@[j]),
        decreases done@.len() - i,
    {
        first_seen.remove(&done[i]);
        i = i + 1;
    }
    assert forall|other: u32| first_seen@.contains_key(other) implies other > index.0 by {
        if other <= index.0 {
            assert(done@.contains(other));
        }
    }
    assert(first_seen@ =~= all.filter_keys(|other: u32| other > index.0));
}

/// Puts frames in order.
///
/// Frames are given out one after the other. When the stream starts, or after a
/// new start was asked for, it goes on with a frame at which decoding can
/// start.
#[derive(Debug)]
pub struct VideoStream {
    addr: SocketAddr,
    last_now: Instant,
    ping_sender: PingSender,
    frames: FrameQueue,
    first_frame: Option<Instant>,
    last_frame: Instant,
    current_frame: Option<FrameIndex>,
    frames_first_seen: HashMap<u32, Instant>,
    waiting_for_idr_since: Option<Instant>,
    events: VecDeque<VideoStreamEvent>,
    discarded: Vec<FrameIndex>,
}

impl View for VideoStream {
    type V = VideoView;

    closed spec fn view(&self) -> VideoView {
        VideoView {
            addr: self.addr,
            last_now: self.last_now,
            ping: self.ping_sender@,
            frames: self.frames@,
            first_frame: self.first_frame,
            last_frame: self.last_frame,
            current_frame: self.current_frame,
            first_seen: self.frames_first_seen@,
            waiting_for_idr_since: self.waiting_for_idr_since,
            events: self.events@,
            discarded: self.discarded@,
        }
    }
}

impl VideoStream {
    /// A stream that has received nothing.
    pub fn new(now: Instant, config: VideoStreamConfig) -> (stream: VideoStream)
        requires
            now.can_add(STALL_TIMEOUT as int),
        ensures
            stream@.wf(),
            stream@ == (VideoView {
                addr: config.addr,
                last_now: now,
                ping: PingView {
                    sunshine_ping: config.sunshine_ping,
                    state: PingSenderState::Pinging,
                    next_ping: now,
                    count: 0,
                    pending: None,
                },
                frames: Seq::empty(),
                first_frame: None,
                last_frame: now,
                current_frame: None,
                first_seen: Map::empty(),
                waiting_for_idr_since: Some(now),
                events: Seq::empty(),
                discarded: Seq::empty(),
            }),
    {
        VideoStream {
            addr: config.addr,
            last_now: now,
            ping_sender: PingSender::new(
                now,
                PingSenderConfig { sunshine_ping: config.sunshine_ping },
            ),
            frames: FrameQueue::new(),
            first_frame: None,
            last_frame: now,
            current_frame: None,
            frames_first_seen: HashMap::new(),
            waiting_for_idr_since: Some(now),
            events: VecDeque::new(),
            discarded: Vec::new(),
        }
    }

    /// Asks for a new start if the stream is broken and the last request is
    /// long enough ago.
    pub fn do_idr_request(&mut self) -> (result: Result<(), VideoStreamError>)
        ensures
            result == Ok::<(), VideoStreamError>(()),
            final(self)@ == old(self)@.after_idr_request(),
            old(self)@.wf() ==> final(self)@.wf(),
    {
        let timeout: u64 = self.wait_until_idr();
        let request_idr = timeout == 0 && match self.waiting_for_idr_since {
            Some(last_idr_request) => self.last_now.since(last_idr_request) >= IDR_REQUEST_TIMEOUT,
            None => true,
        };
        if request_idr {
            self.waiting_for_idr_since = Some(self.last_now);
            self.events.push_back(VideoStreamEvent::SignalIdr);
        }
        Ok(())
    }

    /// Since when the frame `current` is known to be on its way.
    fn first_evidence(&self, current: FrameIndex) -> (since: Option<Instant>)
        ensures
            since == evidence(self@.first_seen, current),
    {
        if let Some(time) = self.frames_first_seen.get(&current.0) {
            return Some(*time);
        }
        // A whole lost frame has no entry of its own. A later frame is
        // evidence of that gap and must start the same bounded loss timer.
        let mut earliest: Option<Instant> = None;
        for index in it: self.frames_first_seen.keys()
            invariant
                it.seq().unref().to_set() == self.frames_first_seen@.dom(),
                match earliest {
                    Some(best) => {
                        &&& exists|index: u32| #[trigger]
                            self.frames_first_seen@.contains_key(index) && index > current.0
                                && self.frames_first_seen@[index] == best
                        &&& forall|i: int|
                            0 <= i < it.index() && *(#[trigger] it.seq()[i]) > current.0
                                ==> best.nanos <= self.frames_first_seen@[*it.seq()[i]].nanos
                    },
                    None => forall|i: int|
                        0 <= i < it.index() ==> *(#[trigger] it.seq()[i]) <= current.0,
                },
        {
            proof {
                assert(it.seq().unref()[it.index()] == *index);
                assert(it.seq().unref().to_set().contains(*index));
            }
            if *index > current.0 {
                if let Some(time) = self.frames_first_seen.get(index) {
                    let earlier = match earliest {
                        Some(best) => time.is_before(best),
                        None => true,
                    };
                    if earlier {
                        earliest = Some(*time);
                    }
                }
            }
        }
        proof {
            let seen = self.frames_first_seen@;
            match earliest {
                Some(best) => {
                    assert(is_earliest_later(seen, current, best));
                    let chosen = choose|time: Instant| is_earliest_later(seen, current, time);
                    assert(chosen.nanos == best.nanos);
                },
                None => {
                    assert(!later_was_seen(seen, current));
                },
            }
        }
        earliest
    }

    /// How long to wait until the stream counts as broken.
    fn wait_until_idr(&self) -> (timeout: u64)
        ensures
            timeout == self@.wait_until_idr(),
            timeout <= STALL_TIMEOUT,
    {
        // Default when we're stuck
        let mut timeout: u64 = remaining(STALL_TIMEOUT, self.last_now, self.last_frame);
        let current = match self.current_frame {
            Some(current) => current,
            None => {
                return timeout;
            },
        };
        // likely skipped frame, or incomplete frame
        if self.frames.has_later(current) || self.frames.is_frame_known(current) {
            if let Some(first_seen) = self.first_evidence(current) {
                let until_dropped: u64 = remaining(
                    FULL_FRAME_RECEIVE_TIMEOUT,
                    self.last_now,
                    first_seen,
                );
                if until_dropped < timeout {
                    timeout = until_dropped;
                }
            }
        }
        timeout
    }

    /// Notes when frames were first seen.
    fn note_first_seen(&mut self, now: Instant)
        ensures
            final(self)@ == (VideoView { first_seen: old(self)@.seen_by(now), ..old(self)@ }),
    {
        let ghost frames = self.frames@;
        let ghost goal = self@.seen_by(now);
        let mut i: usize = 0;
        while i < self.frames.len()
            invariant
                i <= self.frames@.len(),
                frames == self.frames@,
                goal == old(self)@.seen_by(now),
                old(self)@.frames == frames,
                self@ == (VideoView { first_seen: self@.first_seen, ..old(self)@ }),
                forall|index: u32| #[trigger]
                    self.frames_first_seen@.contains_key(index) <==> (
                    old(self)@.first_seen.contains_key(index) || is_known(
                        frames.take(i as int),
                        FrameIndex(index),
                    )),
                forall|index: u32| #[trigger]
                    self.frames_first_seen@.contains_key(index) ==> self.frames_first_seen@[index]
                        == goal[index],
            decreases self.frames@.len() - i,
        {
            let index = self.frames.index_at(i);
            proof {
                assert forall|other: u32|
                    is_known(frames.take(i + 1), FrameIndex(other)) == (is_known(
                        frames.take(i as int),
                        FrameIndex(other),
                    ) || other == index.0) by {
                    lemma_known_take(frames, i as int, FrameIndex(other));
                }
                lemma_known_take(frames, i as int, index);
                assert(is_known(frames, index));
            }
            if !self.frames_first_seen.contains_key(&index.0) {
                self.frames_first_seen.insert(index.0, now);
            }
            i = i + 1;
        }
        assert(frames.take(i as int) =~= frames);
        assert(self.frames_first_seen@ =~= goal);
    }

    /// Gives out the next frame if there is one, and otherwise sees whether the
    /// stream is broken.
    pub fn update(&mut self, now: Instant) -> (result: Result<(), VideoStreamError>)
        requires
            old(self)@.wf(),
        ensures
            final(self)@.wf(),
            result == Ok::<(), VideoStreamError>(()),
            final(self)@ == old(self)@.after_update(now),
    {
        // Add the first seen numbers
        self.note_first_seen(now);
        let mut frame_to_return: Option<FrameIndex> = None;
        if let Some(current_frame) = self.current_frame {
            // discard the old frames
            let mut dropped = self.frames.discard_before(current_frame);
            self.discarded.append(&mut dropped);
            // If we're synced just use the current frame
            if self.frames.is_frame_available(current_frame) {
                frame_to_return = Some(current_frame);
            }
        }
        let ghost frames = old(self)@.fresh_frames();
        assert(self.frames@ == frames);
        assert(self.discarded@ =~= old(self)@.discarded + old(self)@.stale_frames());
        if self.waiting_for_idr_since.is_some() || self.current_frame.is_none() {
            // Search for idrs, if we're waiting for one, or we're not in sync
            if let Some(index) = self.frames.find_idr() {
                proof {
                    lemma_last_idr(frames);
                }
                self.waiting_for_idr_since = None;
                frame_to_return = Some(index);
            }
        }
        assert(frame_to_return == old(self)@.next_frame());
        // Look if the next frame is available
        match frame_to_return {
            Some(index) => {
                if self.first_frame.is_none() {
                    self.first_frame = Some(now);
                }
                self.last_frame = now;
                self.current_frame = Some(FrameIndex(index.0.wrapping_add(1)));
                retain_later(&mut self.frames_first_seen, index);
                if let Some(frame) = self.frames.take_frame(index) {
                    self.events.push_back(VideoStreamEvent::OnFrame(frame));
                }
                assert(self@ =~= old(self)@.after_update(now));
                Ok(())
            },
            None => {
                assert(self@ =~= VideoView {
                    frames,
                    first_seen: old(self)@.seen_by(now),
                    discarded: old(self)@.discarded + old(self)@.stale_frames(),
                    ..old(self)@
                });
                self.do_idr_request()
            },
        }
    }

    /// Tells the time.
    pub fn handle_timeout(&mut self, now: Instant) -> (result: Result<(), VideoStreamError>)
        requires
            old(self)@.wf(),
            now.can_add(STALL_TIMEOUT as int),
        ensures
            final(self)@.wf(),
            result is Ok,
            final(self)@ == old(self)@.at(now).after_update(now),
    {
        self.last_now = now;
        self.ping_sender.handle_timeout(now);
        self.update(now)
    }

    /// Whether datagrams from `addr` belong to the stream. Others must not be
    /// taken apart.
    pub fn accepts(&self, addr: SocketAddr) -> (accepted: bool)
        ensures
            accepted == (addr == self@.addr),
    {
        self.addr == addr
    }

    /// Takes in a datagram from `addr`, given what taking it apart told about
    /// frames. A datagram from elsewhere tells nothing but the time.
    pub fn handle_receive(
        &mut self,
        now: Instant,
        addr: SocketAddr,
        reports: Result<Vec<FrameReport>, VideoDepayloaderError>,
    ) -> (result: Result<(), VideoStreamError>)
        requires
            old(self)@.wf(),
            now.can_add(STALL_TIMEOUT as int),
        ensures
            final(self)@.wf(),
            (final(self)@, result) == old(self)@.after_receive(
                now,
                addr,
                match reports {
                    Ok(reports) => Ok(reports@),
                    Err(error) => Err(error),
                },
            ),
    {
        self.last_now = now;
        self.ping_sender.handle_timeout(now);
        if self.addr != addr {
            return self.update(now);
        }
        if self.ping_sender.state() != PingSenderState::Finished {
            self.ping_sender.set_finished();
        }
        match reports {
            Ok(reports) => {
                self.take_reports(reports);
                self.update(now)
            },
            Err(error) => Err(VideoStreamError::Depayloader(error)),
        }
    }

    /// Notes what is known of frames.
    fn take_reports(&mut self, reports: Vec<FrameReport>)
        requires
            old(self)@.wf(),
        ensures
            final(self)@.wf(),
            final(self)@ == (VideoView {
                frames: with_reports(old(self)@.frames, reports@),
                ..old(self)@
            }),
    {
        let ghost all = reports@;
        assert(all.take(0) =~= Seq::empty());
        for report in it: reports
            invariant
                it.seq() == all,
                old(self)@.wf(),
                self@ == (VideoView {
                    frames: with_reports(old(self)@.frames, all.take(it.index())),
                    ..old(self)@
                }),
                frames_wf(self.frames@),
        {
            proof {
                assert(all.take(it.index() + 1).drop_last() =~= all.take(it.index()));
                assert(all.take(it.index() + 1).last() == report);
            }
            match report {
                FrameReport::Seen(index) => {
                    self.frames.see(index);
                },
                FrameReport::Complete(frame) => {
                    self.frames.complete(frame);
                },
            }
        }
        assert(all.take(all.len() as int) =~= all);
    }

    /// The ping that is to be sent and where to, if there is one.
    pub fn pending_send(&self) -> (datagram: Option<(SocketAddr, &Vec<u8>)>)
        ensures
            match datagram {
                Some(datagram) => datagram.0 == self@.addr && self@.ping.pending == Some(
                    datagram.1@,
                ),
                None => self@.ping.pending is None,
            },
    {
        match self.ping_sender.pending_send() {
            Some(bytes) => Some((self.addr, bytes)),
            None => None,
        }
    }

    /// Forgets the ping that was sent.
    pub fn consume_send(&mut self)
        ensures
            final(self)@ == (VideoView {
                ping: PingView { pending: None, ..old(self)@.ping },
                ..old(self)@
            }),
    {
        self.ping_sender.consume_send();
    }

    /// Asks for a new start on behalf of the video decoder.
    pub fn request_idr(&mut self)
        ensures
            final(self)@ == (VideoView {
                events: old(self)@.events.push(VideoStreamEvent::SignalIdr),
                ..old(self)@
            }),
    {
        self.events.push_back(VideoStreamEvent::SignalIdr);
    }

    /// When the stream next has to be told the time.
    pub fn poll_timeout(&self) -> (deadline: Option<Instant>)
        requires
            self@.wf(),
        ensures
            deadline == Some(self@.deadline()),
    {
        let mut recovery = self.last_now.plus(self.wait_until_idr());
        if let Some(last_request) = self.waiting_for_idr_since {
            let next_request = last_request.plus(IDR_REQUEST_TIMEOUT);
            if recovery.is_before(next_request) {
                recovery = next_request;
            }
        }
        soonest(self.ping_sender.poll_timeout(), Some(recovery))
    }

    /// The numbers of the frames that were dropped since this was last asked:
    /// nothing more of them has to be kept where datagrams are taken apart.
    pub fn take_discarded(&mut self) -> (discarded: Vec<FrameIndex>)
        ensures
            discarded@ == old(self)@.discarded,
            final(self)@ == (VideoView { discarded: Seq::empty(), ..old(self)@ }),
    {
        let mut discarded: Vec<FrameIndex> = Vec::new();
        core::mem::swap(&mut discarded, &mut self.discarded);
        discarded
    }

    /// For how many frames it is remembered when they were first seen.
    pub fn frames_first_seen_len(&self) -> (len: usize)
        ensures
            len == self@.first_seen.len(),
    {
        self.frames_first_seen.len()
    }

    /// The next event, if there is one.
    pub fn poll_event(&mut self) -> (event: Option<VideoStreamEvent>)
        ensures
            match event {
                Some(event) => old(self)@.events.len() > 0 && event == old(self)@.events[0]
                    && final(self)@ == (VideoView {
                    events: old(self)@.events.skip(1),
                    ..old(self)@
                }),
                None => old(self)@.events.len() == 0 && final(self)@ == old(self)@,
            },
    {
        let event = self.events.pop_front();
        proof {
            if event is Some {
                assert(self.events@ =~= old(self).events@.skip(1));
            }
        }
        event
    }
}

} // verus!
