//! What holds of the video stream over several calls.

use vstd::prelude::*;

use crate::net::SocketAddr;
use crate::ping::{PingSenderState, PingView, PING_INTERVAL};
use crate::time::{nanos_between, Instant};
use crate::video::frames::{
    dropped_old, frames_wf, is_available_idr, is_known, last_idr, lemma_complete_wf,
    lemma_last_idr, lemma_position, lemma_seen_wf, lemma_without_old_wf, lemma_without_wf,
    some_later, without_old, FrameIndex, FrameType, KnownFrame, OwnedVideoFrame, DISCARD_LIMIT,
};
use crate::video::stream::{
    evidence, is_earliest_later, later_was_seen, with_reports, FrameReport, VideoDepayloaderError,
    VideoStreamEvent, VideoView, FULL_FRAME_RECEIVE_TIMEOUT, IDR_REQUEST_TIMEOUT, STALL_TIMEOUT,
};

verus! {

/// After an update that had no frame to give out, no deadline has passed: the
/// stream does not keep its driver busy. The time since the last request must
/// be one that an instant can hold.
pub proof fn law_no_deadline_is_left_behind(view: VideoView, now: Instant)
    requires
        view.wf(),
        view.last_now == now,
        view.ping.deadline() matches Some(deadline) ==> deadline.nanos > now.nanos,
        view.next_frame() is None,
        view.waiting_for_idr_since matches Some(last) ==> now.nanos - last.nanos <= i64::MAX,
    ensures
        view.after_update(now).deadline().nanos > now.nanos,
{
    let after = view.after_update(now);
    let looked = VideoView {
        frames: view.fresh_frames(),
        first_seen: view.seen_by(now),
        discarded: view.discarded + view.stale_frames(),
        ..view
    };
    assert(after == looked.after_idr_request());
    assert(after.wait_until_idr() == looked.wait_until_idr());
    assert(0 <= looked.wait_until_idr() <= STALL_TIMEOUT);
    assert(after.recovery().nanos > now.nanos);
}

/// In particular, telling the time never leaves a deadline behind, unless a
/// frame is given out.
pub proof fn law_telling_the_time_leaves_no_deadline_behind(view: VideoView, now: Instant)
    requires
        view.wf(),
        now.can_add(STALL_TIMEOUT as int),
        view.at(now).next_frame() is None,
        view.waiting_for_idr_since matches Some(last) ==> now.nanos - last.nanos <= i64::MAX,
    ensures
        view.at(now).after_update(now).deadline().nanos > now.nanos,
{
    law_next_ping_is_ahead(view.ping, now);
    law_no_deadline_is_left_behind(view.at(now), now);
}

/// A new stream wants to be told the time at once, to send its first ping.
pub proof fn law_first_ping_is_due_at_once(view: VideoView)
    requires
        view.ping.state == PingSenderState::Pinging,
        view.ping.next_ping == view.last_now,
        view.last_now.can_add(STALL_TIMEOUT as int),
        view.waiting_for_idr_since == Some(view.last_now),
    ensures
        view.deadline() == view.last_now,
        view.ping.at(view.last_now).pending is Some,
{
    assert(view.wait_until_idr() >= 0);
}

/// When all of the frame that is due was lost, a later frame that was seen
/// starts the same bounded timer.
pub proof fn law_later_frame_is_evidence_of_loss(view: VideoView, current: FrameIndex, later: u32)
    requires
        view.wf(),
        view.current_frame == Some(current),
        view.waiting_for_idr_since is None,
        !view.first_seen.contains_key(current.0),
        some_later(view.frames, current),
        view.first_seen.contains_key(later),
        later > current.0,
        forall|index: u32| #[trigger]
            view.first_seen.contains_key(index) ==> 0 <= view.last_now.nanos
                - view.first_seen[index].nanos <= i64::MAX,
    ensures
        view.recovery().nanos <= view.last_now.nanos || view.recovery().nanos
            <= view.first_seen[later].nanos + FULL_FRAME_RECEIVE_TIMEOUT,
{
    assert(later_was_seen(view.first_seen, current));
    lemma_evidence_is_earliest(view.first_seen, current);
    let since = evidence(view.first_seen, current)->0;
    assert(is_earliest_later(view.first_seen, current, since));
    assert(since.nanos <= view.first_seen[later].nanos);
    let witness = choose|index: u32| #[trigger]
        view.first_seen.contains_key(index) && index > current.0 && view.first_seen[index] == since;
    assert(0 <= view.last_now.nanos - since.nanos <= i64::MAX);
}

/// Among finitely many frames that were seen, one was seen first.
proof fn lemma_evidence_is_earliest(first_seen: Map<u32, Instant>, current: FrameIndex)
    requires
        later_was_seen(first_seen, current),
    ensures
        exists|time: Instant| is_earliest_later(first_seen, current, time),
{
    let some = choose|index: u32| #[trigger] first_seen.contains_key(index) && index > current.0;
    lemma_earliest_at_most(first_seen, current, first_seen[some], some);
}

/// Going down from the time of one frame leads to the earliest.
proof fn lemma_earliest_at_most(
    first_seen: Map<u32, Instant>,
    current: FrameIndex,
    time: Instant,
    index: u32,
)
    requires
        first_seen.contains_key(index),
        index > current.0,
        first_seen[index] == time,
    ensures
        exists|time: Instant| is_earliest_later(first_seen, current, time),
    decreases time.nanos - i64::MIN,
{
    if exists|other: u32| #[trigger]
        first_seen.contains_key(other) && other > current.0 && first_seen[other].nanos
            < time.nanos {
        let other = choose|other: u32| #[trigger]
            first_seen.contains_key(other) && other > current.0 && first_seen[other].nanos
                < time.nanos;
        lemma_earliest_at_most(first_seen, current, first_seen[other], other);
    } else {
        assert(is_earliest_later(first_seen, current, time));
    }
}

/// Once a frame is given out, only frames after it are remembered.
pub proof fn law_history_is_forgotten(view: VideoView, now: Instant, index: FrameIndex)
    requires
        view.next_frame() == Some(index),
    ensures
        forall|other: u32| #[trigger]
            view.after_update(now).first_seen.contains_key(other) ==> other > index.0,
{
}

/// The first frame that is given out, and the first after a new start was asked
/// for, as far as one is there, is one at which decoding can start.
pub proof fn law_decoding_starts_at_an_idr(view: VideoView, now: Instant)
    requires
        view.wf(),
        view.is_searching(),
        last_idr(view.fresh_frames()) is Some || view.current_frame is None,
        view.next_frame() is Some,
    ensures
        view.after_update(now).waiting_for_idr_since is None,
        view.after_update(now).events.len() == view.events.len() + 1,
        view.after_update(now).events.last() matches VideoStreamEvent::OnFrame(frame)
            && frame.frame_type == FrameType::Idr && view.next_frame() == Some(frame.frame_index),
{
    let frames = view.fresh_frames();
    lemma_fresh_wf(view);
    lemma_last_idr(frames);
    let index = last_idr(frames)->0;
    let i = choose|i: int|
        0 <= i < frames.len() && (#[trigger] frames[i]).index == index && is_available_idr(
            frames[i],
        );
    lemma_position(frames, index);
}

/// What is left after old frames are dropped is still a list of frames.
proof fn lemma_fresh_wf(view: VideoView)
    requires
        view.wf(),
    ensures
        frames_wf(view.fresh_frames()),
{
    if let Some(current) = view.current_frame {
        lemma_without_old_wf(view.frames, current);
    }
}

/// A stream that is not looking for a new start gives out exactly the frame
/// that is due, and then the next one is due.
pub proof fn law_frames_come_in_order(view: VideoView, now: Instant, index: FrameIndex)
    requires
        view.wf(),
        !view.is_searching(),
        view.next_frame() == Some(index),
    ensures
        view.current_frame == Some(index),
        view.after_update(now).current_frame == Some(FrameIndex(index.0.wrapping_add(1))),
        view.after_update(now).events.last() matches VideoStreamEvent::OnFrame(frame)
            && frame.frame_index == index,
{
    let frames = view.fresh_frames();
    lemma_fresh_wf(view);
    let i = choose|i: int|
        0 <= i < frames.len() && (#[trigger] frames[i]).index == index && frames[i].frame is Some;
    lemma_position(frames, index);
}

/// As long as not too many frames are listed, the stream never goes back.
pub proof fn law_frames_never_go_back(view: VideoView, current: FrameIndex, index: FrameIndex)
    requires
        view.wf(),
        view.current_frame == Some(current),
        view.frames.len() <= DISCARD_LIMIT,
        view.next_frame() == Some(index),
    ensures
        index.0 >= current.0,
{
    let frames = view.fresh_frames();
    lemma_without_old_wf(view.frames, current);
    lemma_last_idr(frames);
}

/// A frame that was given out is no longer listed.
pub proof fn law_frame_is_given_out_once(view: VideoView, now: Instant, index: FrameIndex)
    requires
        view.wf(),
        view.next_frame() == Some(index),
    ensures
        !is_known(view.after_update(now).frames, index),
{
    let frames = view.fresh_frames();
    lemma_fresh_wf(view);
    lemma_last_idr(frames);
    let i = choose|i: int|
        0 <= i < frames.len() && (#[trigger] frames[i]).index == index && frames[i].frame is Some;
    lemma_position(frames, index);
    lemma_without_wf(frames, index);
}

/// A new start is asked for exactly when the stream is broken and no request is
/// open or the last one is some time ago. Otherwise nothing changes.
pub proof fn law_requests_keep_their_distance(view: VideoView)
    ensures
        ({
            let due = view.wait_until_idr() == 0 && match view.waiting_for_idr_since {
                Some(last) => nanos_between(view.last_now.nanos as int, last.nanos as int)
                    >= IDR_REQUEST_TIMEOUT,
                None => true,
            };
            if due {
                view.after_idr_request() == (VideoView {
                    waiting_for_idr_since: Some(view.last_now),
                    events: view.events.push(VideoStreamEvent::SignalIdr),
                    ..view
                })
            } else {
                view.after_idr_request() == view
            }
        }),
        view.after_idr_request().events.len() == view.events.len() + 1 ==> {
            &&& view.wait_until_idr() == 0
            &&& view.waiting_for_idr_since matches Some(last) ==> view.last_now.nanos - last.nanos
                >= IDR_REQUEST_TIMEOUT
        },
{
}

/// The numbers that are told as dropped are exactly those of the frames that
/// were listed and no longer are.
pub proof fn law_dropped_frames_are_told(
    frames: Seq<KnownFrame>,
    current: FrameIndex,
    index: FrameIndex,
)
    requires
        frames_wf(frames),
    ensures
        dropped_old(frames, current).contains(index) <==> is_known(frames, index) && !is_known(
            without_old(frames, current),
            index,
        ),
{
    let n = if frames.len() < DISCARD_LIMIT {
        frames.len() as int
    } else {
        DISCARD_LIMIT as int
    };
    let keep = |known: KnownFrame| known.index.0 >= current.0;
    let stale = |known: KnownFrame| known.index.0 < current.0;
    let front = frames.take(n);
    let gone = front.filter(stale);
    let dropped = dropped_old(frames, current);
    let left = without_old(frames, current);
    if dropped.contains(index) {
        let i = choose|i: int| 0 <= i < dropped.len() && dropped[i] == index;
        assert(gone.contains(gone[i]));
        front.lemma_filter_contains_rev(stale, gone[i]);
        front.lemma_filter_pred(stale, i);
        let k = choose|k: int| 0 <= k < front.len() && front[k] == gone[i];
        assert(frames[k].index == index);
        if is_known(left, index) {
            let l = choose|l: int| 0 <= l < left.len() && (#[trigger] left[l]).index == index;
            if l < front.filter(keep).len() {
                front.lemma_filter_pred(keep, l);
            } else {
                assert(left[l] == frames[n + l - front.filter(keep).len()]);
                assert(frames[k].index != frames[n + l - front.filter(keep).len()].index);
            }
        }
    }
    if is_known(frames, index) && !is_known(left, index) {
        let k = choose|k: int| 0 <= k < frames.len() && (#[trigger] frames[k]).index == index;
        if k >= n {
            assert(left[front.filter(keep).len() + k - n] == frames[k]);
        } else if index.0 >= current.0 {
            assert(front[k] == frames[k]);
            front.lemma_filter_contains(keep, k);
            let l = choose|l: int|
                0 <= l < front.filter(keep).len() && front.filter(keep)[l] == frames[k];
            assert(left[l] == frames[k]);
        } else {
            assert(front[k] == frames[k]);
            front.lemma_filter_contains(stale, k);
            let l = choose|l: int| 0 <= l < gone.len() && gone[l] == frames[k];
            assert(dropped[l] == index);
        }
    }
}

/// Something that is done with a stream.
pub enum VideoStep {
    Timeout { now: Instant },
    Receive {
        now: Instant,
        addr: SocketAddr,
        reports: Result<Seq<FrameReport>, VideoDepayloaderError>,
    },
    TakeEvent,
    RequestIdr,
}

impl VideoStep {
    /// The deadlines that follow are instants.
    pub open spec fn wf(self) -> bool {
        match self {
            VideoStep::Timeout { now } => now.can_add(STALL_TIMEOUT as int),
            VideoStep::Receive { now, .. } => now.can_add(STALL_TIMEOUT as int),
            _ => true,
        }
    }

    /// Whether the stream looks for something to do.
    pub open spec fn updates(self) -> bool {
        self is Timeout || self is Receive
    }

    /// The time that the stream is told.
    pub open spec fn now(self) -> Instant {
        match self {
            VideoStep::Timeout { now } => now,
            VideoStep::Receive { now, .. } => now,
            _ => Instant { nanos: 0 },
        }
    }
}

/// What a stream holds after something was done with it.
pub open spec fn after_step(view: VideoView, step: VideoStep) -> VideoView {
    match step {
        VideoStep::Timeout { now } => view.at(now).after_update(now),
        VideoStep::Receive { now, addr, reports } => view.after_receive(now, addr, reports).0,
        VideoStep::TakeEvent => if view.events.len() == 0 {
            view
        } else {
            VideoView { events: view.events.skip(1), ..view }
        },
        VideoStep::RequestIdr => VideoView {
            events: view.events.push(VideoStreamEvent::SignalIdr),
            ..view
        },
    }
}

/// The events that something that is done with a stream adds.
pub open spec fn queued(view: VideoView, step: VideoStep) -> Seq<VideoStreamEvent> {
    match step {
        VideoStep::TakeEvent => Seq::empty(),
        step => after_step(view, step).events.skip(view.events.len() as int),
    }
}

/// What a stream holds after several things were done with it.
pub open spec fn after_steps(view: VideoView, steps: Seq<VideoStep>) -> VideoView
    decreases steps.len(),
{
    if steps.len() == 0 {
        view
    } else {
        after_step(after_steps(view, steps.drop_last()), steps.last())
    }
}

/// All events that were added, whether or not they were taken.
pub open spec fn history(view: VideoView, steps: Seq<VideoStep>) -> Seq<VideoStreamEvent>
    decreases steps.len(),
{
    if steps.len() == 0 {
        Seq::empty()
    } else {
        history(view, steps.drop_last()) + queued(
            after_steps(view, steps.drop_last()),
            steps.last(),
        )
    }
}

/// The last frame among some events.
pub open spec fn last_given(events: Seq<VideoStreamEvent>) -> Option<OwnedVideoFrame>
    decreases events.len(),
{
    if events.len() == 0 {
        None
    } else {
        match events.last() {
            VideoStreamEvent::OnFrame(frame) => Some(frame),
            VideoStreamEvent::SignalIdr => last_given(events.drop_last()),
        }
    }
}

/// Whether a frame can be decoded after the one before it: it starts anew, or
/// is the next one.
pub open spec fn can_follow(before: Option<OwnedVideoFrame>, frame: OwnedVideoFrame) -> bool {
    ||| frame.frame_type == FrameType::Idr
    ||| before matches Some(before) && frame.frame_index.0
        == before.frame_index.0.wrapping_add(1)
}

/// Taking a datagram apart keeps the list of frames well formed.
proof fn lemma_reports_wf(frames: Seq<KnownFrame>, reports: Seq<FrameReport>)
    requires
        frames_wf(frames),
    ensures
        frames_wf(with_reports(frames, reports)),
    decreases reports.len(),
{
    if reports.len() > 0 {
        lemma_reports_wf(frames, reports.drop_last());
        let before = with_reports(frames, reports.drop_last());
        match reports.last() {
            FrameReport::Seen(index) => lemma_seen_wf(before, index),
            FrameReport::Complete(frame) => lemma_complete_wf(before, frame),
        }
    }
}

/// In every state, an update adds one event at most: a frame or a request. A
/// frame is one at which decoding can start or the one that is due, and after
/// it the next one is due.
pub proof fn law_update_gives_one_frame_or_request(view: VideoView, now: Instant)
    requires
        view.wf(),
        view.last_now == now,
    ensures
        view.after_update(now).wf(),
        ({
            let after = view.after_update(now);
            match view.next_frame() {
                Some(index) => {
                    &&& after.events.drop_last() == view.events
                    &&& after.events.len() == view.events.len() + 1
                    &&& after.events.last() matches VideoStreamEvent::OnFrame(frame)
                    &&& frame.frame_index == index
                    &&& frame.frame_type == FrameType::Idr || view.current_frame == Some(index)
                    &&& after.current_frame == Some(FrameIndex(index.0.wrapping_add(1)))
                    &&& frame.frame_type != FrameType::Idr ==> after.waiting_for_idr_since
                        == view.waiting_for_idr_since
                },
                None => {
                    &&& after.events == view.events || after.events == view.events.push(
                        VideoStreamEvent::SignalIdr,
                    ) && after.waiting_for_idr_since == Some(now)
                    &&& after.events == view.events ==> after.waiting_for_idr_since
                        == view.waiting_for_idr_since
                    &&& after.current_frame == view.current_frame
                },
            }
        }),
{
    let after = view.after_update(now);
    let frames = view.fresh_frames();
    lemma_fresh_wf(view);
    match view.next_frame() {
        Some(index) => {
            lemma_last_idr(frames);
            let i = choose|i: int|
                0 <= i < frames.len() && (#[trigger] frames[i]).index == index
                    && frames[i].frame is Some;
            if view.is_searching() && last_idr(frames) is Some {
                let k = choose|k: int|
                    0 <= k < frames.len() && (#[trigger] frames[k]).index == index
                        && is_available_idr(frames[k]);
                assert(frames[k].frame is Some);
            }
            lemma_position(frames, index);
            lemma_without_wf(frames, index);
            assert(after.events.drop_last() =~= view.events);
        },
        None => {
            assert(view.events.len() != view.events.push(VideoStreamEvent::SignalIdr).len());
        },
    }
}

/// What one thing that is done with a stream comes to.
proof fn lemma_step(view: VideoView, step: VideoStep)
    requires
        view.wf(),
        step.wf(),
    ensures
        after_step(view, step).wf(),
        queued(view, step).len() <= 1,
        match last_given(queued(view, step)) {
            Some(frame) => {
                &&& step.updates()
                &&& queued(view, step) == seq![VideoStreamEvent::OnFrame(frame)]
                &&& frame.frame_type == FrameType::Idr || view.current_frame == Some(
                    frame.frame_index,
                )
                &&& after_step(view, step).current_frame == Some(
                    FrameIndex(frame.frame_index.0.wrapping_add(1)),
                )
                &&& frame.frame_type != FrameType::Idr ==> after_step(
                    view,
                    step,
                ).waiting_for_idr_since == view.waiting_for_idr_since
            },
            None => {
                &&& after_step(view, step).current_frame == view.current_frame
                &&& step.updates() && queued(view, step).len() == 1 ==> after_step(
                    view,
                    step,
                ).waiting_for_idr_since == Some(step.now())
                &&& !(step.updates() && queued(view, step).len() == 1) ==> after_step(
                    view,
                    step,
                ).waiting_for_idr_since == view.waiting_for_idr_since
            },
        },
{
    reveal_with_fuel(last_given, 3);
    let after = after_step(view, step);
    let added = queued(view, step);
    match step {
        VideoStep::Timeout { now } => {
            lemma_update_step(view.at(now), now, after, added);
        },
        VideoStep::Receive { now, addr, reports } => {
            let told = view.at(now);
            if addr != view.addr {
                lemma_update_step(told, now, after, added);
            } else {
                let found = VideoView {
                    ping: PingView { state: PingSenderState::Finished, ..told.ping },
                    ..told
                };
                match reports {
                    Ok(reports) => {
                        lemma_reports_wf(view.frames, reports);
                        lemma_update_step(
                            VideoView {
                                frames: with_reports(found.frames, reports),
                                ..found
                            },
                            now,
                            after,
                            added,
                        );
                    },
                    Err(_) => {
                        assert(added =~= Seq::empty());
                    },
                }
            }
        },
        VideoStep::TakeEvent => {},
        VideoStep::RequestIdr => {
            assert(added =~= seq![VideoStreamEvent::SignalIdr]);
            assert(added.drop_last() =~= Seq::empty());
        },
    }
}

/// What an update adds.
proof fn lemma_update_step(
    view: VideoView,
    now: Instant,
    after: VideoView,
    added: Seq<VideoStreamEvent>,
)
    requires
        view.wf(),
        view.last_now == now,
        after == view.after_update(now),
        added == after.events.skip(view.events.len() as int),
    ensures
        after.wf(),
        added.len() <= 1,
        match last_given(added) {
            Some(frame) => {
                &&& added == seq![VideoStreamEvent::OnFrame(frame)]
                &&& frame.frame_type == FrameType::Idr || view.current_frame == Some(
                    frame.frame_index,
                )
                &&& after.current_frame == Some(FrameIndex(frame.frame_index.0.wrapping_add(1)))
                &&& frame.frame_type != FrameType::Idr ==> after.waiting_for_idr_since
                    == view.waiting_for_idr_since
            },
            None => {
                &&& after.current_frame == view.current_frame
                &&& added.len() == 1 ==> after.waiting_for_idr_since == Some(now)
                &&& added.len() == 0 ==> after.waiting_for_idr_since == view.waiting_for_idr_since
            },
        },
{
    reveal_with_fuel(last_given, 3);
    law_update_gives_one_frame_or_request(view, now);
    if after.events.len() > view.events.len() {
        assert(added =~= seq![after.events.last()]);
        assert(added.drop_last() =~= Seq::empty());
    } else {
        assert(added =~= Seq::empty());
    }
}

/// Over any history of a stream that has given out nothing, each frame that is
/// given out can be decoded after the one before it: the first is one at which
/// decoding can start, and a gap is bridged only by another such frame.
pub proof fn law_every_frame_can_follow(view: VideoView, steps: Seq<VideoStep>, i: int)
    requires
        view.wf(),
        view.current_frame is None,
        forall|j: int| 0 <= j < steps.len() ==> (#[trigger] steps[j]).wf(),
        0 <= i < history(view, steps).len(),
    ensures
        history(view, steps)[i] matches VideoStreamEvent::OnFrame(frame) ==> can_follow(
            last_given(history(view, steps).take(i)),
            frame,
        ),
    decreases steps.len(),
{
    let before = steps.drop_last();
    let past = history(view, before);
    let state = after_steps(view, before);
    assert(forall|j: int| 0 <= j < before.len() ==> before[j] == steps[j]);
    if i < past.len() {
        law_every_frame_can_follow(view, before, i);
        assert(history(view, steps).take(i) =~= past.take(i));
    } else {
        lemma_due_frame(view, before);
        lemma_step(state, steps.last());
        reveal_with_fuel(last_given, 3);
        let added = queued(state, steps.last());
        assert(added.len() == 1);
        assert(history(view, steps).take(i) =~= past);
        assert(added.drop_last() =~= Seq::empty());
        assert(history(view, steps)[i] == added[0]);
        assert(added.last() == added[0]);
    }
}

/// The frame that is due is the one after the last that was given out.
proof fn lemma_due_frame(view: VideoView, steps: Seq<VideoStep>)
    requires
        view.wf(),
        view.current_frame is None,
        forall|j: int| 0 <= j < steps.len() ==> (#[trigger] steps[j]).wf(),
    ensures
        after_steps(view, steps).wf(),
        after_steps(view, steps).current_frame == match last_given(history(view, steps)) {
            Some(frame) => Some(FrameIndex(frame.frame_index.0.wrapping_add(1))),
            None => None,
        },
    decreases steps.len(),
{
    if steps.len() > 0 {
        let before = steps.drop_last();
        assert(forall|j: int| 0 <= j < before.len() ==> before[j] == steps[j]);
        lemma_due_frame(view, before);
        let state = after_steps(view, before);
        lemma_step(state, steps.last());
        reveal_with_fuel(last_given, 3);
        let past = history(view, before);
        let added = queued(state, steps.last());
        if added.len() == 0 {
            assert(past + added =~= past);
        } else {
            assert((past + added).drop_last() =~= past);
            assert((past + added).last() == added[0]);
            assert(added.last() == added[0]);
            assert(added.drop_last() =~= Seq::empty());
        }
    }
}

/// Whether something that is done with a stream makes it ask for a new start.
pub open spec fn asks_for_start(view: VideoView, step: VideoStep) -> bool {
    step.updates() && queued(view, step) == seq![VideoStreamEvent::SignalIdr]
}

/// Whether something that is done with a stream makes it give out a frame at
/// which decoding can start.
pub open spec fn starts_anew(view: VideoView, step: VideoStep) -> bool {
    last_given(queued(view, step)) matches Some(frame) && frame.frame_type == FrameType::Idr
}

/// Two requests for a new start, with none in between and no such start, are
/// some time apart.
pub proof fn law_requests_are_apart(
    view: VideoView,
    first: Instant,
    steps: Seq<VideoStep>,
    step: VideoStep,
)
    requires
        view.wf(),
        view.waiting_for_idr_since == Some(first),
        step.wf(),
        forall|j: int| 0 <= j < steps.len() ==> (#[trigger] steps[j]).wf(),
        forall|j: int|
            0 <= j < steps.len() ==> !asks_for_start(
                after_steps(view, steps.take(j)),
                #[trigger] steps[j],
            ) && !starts_anew(after_steps(view, steps.take(j)), steps[j]),
        asks_for_start(after_steps(view, steps), step),
    ensures
        step.now().nanos - first.nanos >= IDR_REQUEST_TIMEOUT,
{
    lemma_still_waiting(view, first, steps);
    lemma_request_is_apart(after_steps(view, steps), first, step);
}

proof fn lemma_still_waiting(view: VideoView, first: Instant, steps: Seq<VideoStep>)
    requires
        view.wf(),
        view.waiting_for_idr_since == Some(first),
        forall|j: int| 0 <= j < steps.len() ==> (#[trigger] steps[j]).wf(),
        forall|j: int|
            0 <= j < steps.len() ==> !asks_for_start(
                after_steps(view, steps.take(j)),
                #[trigger] steps[j],
            ) && !starts_anew(after_steps(view, steps.take(j)), steps[j]),
    ensures
        after_steps(view, steps).wf(),
        after_steps(view, steps).waiting_for_idr_since == Some(first),
    decreases steps.len(),
{
    if steps.len() > 0 {
        let before = steps.drop_last();
        assert forall|j: int| 0 <= j < before.len() implies (#[trigger] before[j]).wf()
            && !asks_for_start(after_steps(view, before.take(j)), before[j]) && !starts_anew(
            after_steps(view, before.take(j)),
            before[j],
        ) by {
            assert(before[j] == steps[j]);
            assert(before.take(j) =~= steps.take(j));
        }
        lemma_still_waiting(view, first, before);
        let state = after_steps(view, before);
        let n = steps.len() - 1;
        assert(steps.take(n) =~= before);
        assert(steps[n] == steps.last());
        lemma_step(state, steps.last());
        reveal_with_fuel(last_given, 3);
        let added = queued(state, steps.last());
        if added.len() == 1 && steps.last().updates() && last_given(added) is None {
            assert(added =~= seq![VideoStreamEvent::SignalIdr]);
        }
    }
}

proof fn lemma_request_is_apart(view: VideoView, first: Instant, step: VideoStep)
    requires
        view.wf(),
        step.wf(),
        view.waiting_for_idr_since == Some(first),
        asks_for_start(view, step),
    ensures
        step.now().nanos - first.nanos >= IDR_REQUEST_TIMEOUT,
{
    let after = after_step(view, step);
    let added = queued(view, step);
    assert(added.len() == 1 && added[0] == VideoStreamEvent::SignalIdr);
    assert(after.events.last() == added[0]);
    match step {
        VideoStep::Timeout { now } => law_update_gives_one_frame_or_request(view.at(now), now),
        VideoStep::Receive { now, addr, reports } => {
            let told = view.at(now);
            if addr != view.addr {
                law_update_gives_one_frame_or_request(told, now);
            } else if let Ok(reports) = reports {
                lemma_reports_wf(view.frames, reports);
                law_update_gives_one_frame_or_request(
                    VideoView {
                        ping: PingView { state: PingSenderState::Finished, ..told.ping },
                        frames: with_reports(view.frames, reports),
                        ..told
                    },
                    now,
                );
            }
        },
        _ => {},
    }
}

/// Pings stop for good with the first datagram from the host.
pub proof fn law_pings_stop(ping: PingView, now: Instant)
    requires
        ping.state == PingSenderState::Finished,
    ensures
        ping.at(now) == ping,
        ping.deadline() is None,
{
}

/// As long as pings are needed, the next one is never due already once the
/// sender was told the time.
pub proof fn law_next_ping_is_ahead(ping: PingView, now: Instant)
    requires
        now.can_add(PING_INTERVAL as int),
    ensures
        ping.at(now).deadline() matches Some(deadline) ==> deadline.nanos > now.nanos,
{
}

} // verus!
