//! What each call of a video stream and of its ping sender comes to.

use vstd::prelude::*;

use crate::audio::wire::number_of_four;
use crate::net::SocketAddr;
use crate::ping::{PingSender, PingSenderConfig, PingSenderState, PingView, SunshinePing};
use crate::time::Instant;
use crate::video::frames::{
    frames_wf, is_available, is_available_idr, is_known, last_idr, lemma_complete_wf,
    lemma_last_idr, lemma_position, lemma_seen_wf, lemma_without_old_wf, lemma_without_wf, position,
    some_later, with_complete, with_seen, without_old, FrameIndex, FrameQueue, KnownFrame,
    OwnedVideoFrame,
};
use crate::video::laws::law_dropped_frames_are_told;
use crate::video::stream::{
    evidence, is_earliest_later, with_reports, FrameReport, VideoDepayloaderError, VideoStream,
    VideoStreamConfig, VideoStreamError, VideoStreamEvent, VideoView,
};

verus! {

/// What is left when frames before `current` are dropped: all others, and
/// nothing new.
proof fn lemma_fresh(view: VideoView)
    requires
        view.wf(),
    ensures
        frames_wf(view.fresh_frames()),
        forall|i: int|
            0 <= i < view.fresh_frames().len() ==> view.frames.contains(
                #[trigger] view.fresh_frames()[i],
            ),
        forall|i: int|
            0 <= i < view.frames.len() && (view.current_frame matches Some(current)
                ==> view.frames[i].index.0 >= current.0) ==> view.fresh_frames().contains(
                #[trigger] view.frames[i],
            ),
        view.frames.len() <= 200 ==> forall|i: int|
            0 <= i < view.fresh_frames().len() ==> (view.current_frame matches Some(current) ==> (
            #[trigger] view.fresh_frames()[i]).index.0 >= current.0),
{
    let frames = view.frames;
    let fresh = view.fresh_frames();
    if let Some(current) = view.current_frame {
        lemma_without_old_wf(frames, current);
        let n = if frames.len() < 200 {
            frames.len() as int
        } else {
            200
        };
        let keep = |known: KnownFrame| known.index.0 >= current.0;
        let front = frames.take(n);
        let kept = front.filter(keep);
        assert(fresh == kept + frames.skip(n));
        assert forall|i: int| 0 <= i < frames.len() && frames[i].index.0
            >= current.0 implies fresh.contains(#[trigger] frames[i]) by {
            if i < n {
                assert(front[i] == frames[i]);
                front.lemma_filter_contains(keep, i);
                let k = choose|k: int| 0 <= k < kept.len() && kept[k] == frames[i];
                assert(fresh[k] == frames[i]);
            } else {
                assert(fresh[kept.len() + i - n] == frames[i]);
            }
        }
    } else {
        assert forall|i: int| 0 <= i < frames.len() implies fresh.contains(
            #[trigger] frames[i],
        ) by {
            assert(fresh[i] == frames[i]);
        }
        assert forall|i: int| 0 <= i < fresh.len() implies frames.contains(
            #[trigger] fresh[i],
        ) by {
            assert(frames[i] == fresh[i]);
        }
    }
}

/// Whether decoding can start at a listed frame: it is complete and needs no
/// other.
pub open spec fn can_start(known: KnownFrame) -> bool {
    known.frame matches Some(frame) && frame.frame_type is Idr
}

/// Whether there is no new start to go on with: no frame at which decoding can
/// start is listed, but for ones before the frame that is due. Of more than two
/// hundred frames, such ones may be left.
pub open spec fn has_no_start(view: VideoView) -> bool {
    forall|i: int|
        0 <= i < view.frames.len() && can_start(#[trigger] view.frames[i]) ==> view.frames.len()
            <= 200 && (view.current_frame matches Some(current) && view.frames[i].index.0
            < current.0)
}

/// If there is none, none is found.
proof fn lemma_no_start(view: VideoView)
    requires
        view.wf(),
        has_no_start(view),
    ensures
        last_idr(view.fresh_frames()) is None,
{
    let fresh = view.fresh_frames();
    lemma_fresh(view);
    lemma_last_idr(fresh);
    if last_idr(fresh) is Some {
        let l = choose|l: int|
            0 <= l < fresh.len() && (#[trigger] fresh[l]).index == last_idr(fresh)->0
                && is_available_idr(fresh[l]);
        assert(view.frames.contains(fresh[l]));
        let m = choose|m: int| 0 <= m < view.frames.len() && view.frames[m] == fresh[l];
        assert(can_start(view.frames[m]));
    }
}

/// What an update that gives out `frame` leaves: the frame is told after all
/// that waits already, the stall time starts anew, the next frame is due, and
/// the frame and those before it are forgotten while others stay listed.
pub open spec fn gave_out(
    before: VideoView,
    now: Instant,
    frame: OwnedVideoFrame,
    after: VideoView,
) -> bool {
    let index = frame.frame_index.0;
    &&& after.events == before.events.push(VideoStreamEvent::OnFrame(frame))
    &&& after.last_frame == now
    &&& after.current_frame == Some(FrameIndex(((index + 1) % 0x1_0000_0000) as u32))
    &&& after.first_frame == if before.first_frame is Some {
        before.first_frame
    } else {
        Some(now)
    }
    &&& forall|i: int|
        0 <= i < after.frames.len() ==> before.frames.contains(#[trigger] after.frames[i])
            && after.frames[i].index.0 != index
    &&& forall|i: int|
        0 <= i < before.frames.len() && before.frames[i].index.0 != index && (
        before.current_frame matches Some(current) ==> before.frames[i].index.0 >= current.0)
            ==> after.frames.contains(#[trigger] before.frames[i])
    &&& forall|other: u32| #[trigger]
        after.first_seen.contains_key(other) <==> other > index && (before.first_seen.contains_key(
            other,
        ) || is_listed(before.frames, other))
    &&& forall|other: u32| #[trigger]
        after.first_seen.contains_key(other) ==> after.first_seen[other] == if
            before.first_seen.contains_key(other) {
            before.first_seen[other]
        } else {
            now
        }
    &&& after.addr == before.addr
    &&& after.last_now == before.last_now
    &&& after.ping == before.ping
}

/// Whether a frame is listed under a number.
pub open spec fn is_listed(frames: Seq<KnownFrame>, index: u32) -> bool {
    exists|i: int| 0 <= i < frames.len() && (#[trigger] frames[i]).index.0 == index
}

/// Being listed and being known are the same.
proof fn lemma_listed(frames: Seq<KnownFrame>, index: u32)
    ensures
        is_listed(frames, index) == is_known(frames, FrameIndex(index)),
{
    if is_listed(frames, index) {
        let i = choose|i: int| 0 <= i < frames.len() && (#[trigger] frames[i]).index.0 == index;
        assert(frames[i].index == FrameIndex(index));
    }
}

/// What giving out a frame that is listed and left comes to.
#[verifier::rlimit(40)]
proof fn lemma_gave_out(view: VideoView, now: Instant, i: int)
    requires
        view.wf(),
        0 <= i < view.frames.len(),
        view.frames[i].frame is Some,
        view.fresh_frames().contains(view.frames[i]),
        view.next_frame() == Some(view.frames[i].index),
    ensures
        gave_out(view, now, view.frames[i].frame->0, view.after_update(now)),
{
    let known = view.frames[i];
    let index = known.index;
    let fresh = view.fresh_frames();
    let after = view.after_update(now);
    lemma_fresh(view);
    let k = choose|k: int| 0 <= k < fresh.len() && fresh[k] == known;
    lemma_position(fresh, index);
    assert(position(fresh, index) == k);
    assert(known.frame->0.frame_index == index);
    lemma_without_wf(fresh, index);
    assert(after.frames == fresh.remove(k));
    assert forall|j: int| 0 <= j < after.frames.len() implies view.frames.contains(
        #[trigger] after.frames[j],
    ) && after.frames[j].index.0 != index.0 by {
        let l = if j < k {
            j
        } else {
            j + 1
        };
        assert(after.frames[j] == fresh[l]);
        assert(fresh[l].index != fresh[k].index);
    }
    assert forall|j: int| 0 <= j < view.frames.len() && view.frames[j].index.0 != index.0 && (
    view.current_frame matches Some(current) ==> view.frames[j].index.0
        >= current.0) implies after.frames.contains(#[trigger] view.frames[j]) by {
        assert(fresh.contains(view.frames[j]));
        let l = choose|l: int| 0 <= l < fresh.len() && fresh[l] == view.frames[j];
        assert(after.frames[if l < k {
            l
        } else {
            l - 1
        }] == fresh[l]);
    }
    assert forall|other: u32| #[trigger]
        after.first_seen.contains_key(other) <==> other > index.0 && (view.first_seen.contains_key(
            other,
        ) || is_listed(view.frames, other)) by {
        lemma_listed(view.frames, other);
    }
}

/// A stream that does not look for a new start, or finds none, gives out the
/// frame that is due as soon as it is complete, whatever its type, as it was
/// completed.
pub proof fn law_due_frame_is_given_out(
    stream: &mut VideoStream,
    now: Instant,
    result: Result<(), VideoStreamError>,
    i: int,
)
    requires
        old(stream)@.wf(),
        call_ensures(VideoStream::update, (stream, now), result),
        0 <= i < old(stream)@.frames.len(),
        old(stream)@.frames[i].frame is Some,
        old(stream)@.current_frame == Some(old(stream)@.frames[i].index),
        old(stream)@.waiting_for_idr_since is None || has_no_start(old(stream)@),
    ensures
        result is Ok,
        gave_out(old(stream)@, now, old(stream)@.frames[i].frame->0, final(stream)@),
        final(stream)@.waiting_for_idr_since == old(stream)@.waiting_for_idr_since,
{
    let view = old(stream)@;
    let fresh = view.fresh_frames();
    let index = view.frames[i].index;
    lemma_fresh(view);
    lemma_last_idr(fresh);
    assert(fresh.contains(view.frames[i]));
    let k = choose|k: int| 0 <= k < fresh.len() && fresh[k] == view.frames[i];
    assert(is_available(fresh, index));
    if view.waiting_for_idr_since is Some {
        lemma_no_start(view);
    }
    assert(view.next_frame() == Some(index));
    lemma_gave_out(view, now, i);
}

/// Whatever frame is given out, the time in which the stream counts as stalled
/// starts anew with it.
pub proof fn law_stall_time_starts_with_every_frame(
    stream: &mut VideoStream,
    now: Instant,
    result: Result<(), VideoStreamError>,
    frame: OwnedVideoFrame,
)
    requires
        call_ensures(VideoStream::update, (stream, now), result),
        final(stream)@.events == old(stream)@.events.push(VideoStreamEvent::OnFrame(frame)),
    ensures
        final(stream)@.last_frame == now,
{
    assert(final(stream)@.events.last() == VideoStreamEvent::OnFrame(frame));
    assert(old(stream)@.events.len() != final(stream)@.events.len());
}

/// Dropping what a filter does not keep leaves the last frame at which decoding
/// can start, if it is kept.
proof fn lemma_last_start_is_kept(
    frames: Seq<KnownFrame>,
    keep: spec_fn(KnownFrame) -> bool,
    i: int,
)
    requires
        0 <= i < frames.len(),
        can_start(frames[i]),
        keep(frames[i]),
        forall|j: int| i < j < frames.len() && keep(#[trigger] frames[j]) ==> !can_start(frames[j]),
    ensures
        last_idr(frames.filter(keep)) == Some(frames[i].index),
    decreases frames.len(),
{
    reveal(Seq::filter);
    let rest = frames.drop_last();
    if i == frames.len() - 1 {
        assert(frames.filter(keep) == rest.filter(keep).push(frames[i]));
        assert(is_available_idr(frames.filter(keep).last()));
    } else {
        assert forall|j: int| i < j < rest.len() && keep(#[trigger] rest[j]) implies !can_start(
            rest[j],
        ) by {
            assert(rest[j] == frames[j]);
        }
        lemma_last_start_is_kept(rest, keep, i);
        let last = frames.last();
        assert(last == frames[frames.len() - 1]);
        if keep(last) {
            assert(frames.filter(keep) == rest.filter(keep).push(last));
            assert(frames.filter(keep).drop_last() =~= rest.filter(keep));
        } else {
            assert(frames.filter(keep) == rest.filter(keep));
        }
    }
}

/// A stream that looks for a new start gives out the last listed frame at which
/// decoding can start, among those that are not before the one that is due, and
/// then no longer looks for one.
pub proof fn law_new_start_is_given_out(
    stream: &mut VideoStream,
    now: Instant,
    result: Result<(), VideoStreamError>,
    i: int,
)
    requires
        old(stream)@.wf(),
        call_ensures(VideoStream::update, (stream, now), result),
        old(stream)@.waiting_for_idr_since is Some || old(stream)@.current_frame is None,
        old(stream)@.frames.len() <= 200,
        0 <= i < old(stream)@.frames.len(),
        can_start(old(stream)@.frames[i]),
        old(stream)@.current_frame matches Some(current) ==> old(stream)@.frames[i].index.0
            >= current.0,
        forall|j: int|
            i < j < old(stream)@.frames.len() && (old(stream)@.current_frame matches Some(current)
                ==> old(stream)@.frames[j].index.0 >= current.0) ==> !can_start(
                #[trigger] old(stream)@.frames[j],
            ),
    ensures
        result is Ok,
        gave_out(old(stream)@, now, old(stream)@.frames[i].frame->0, final(stream)@),
        final(stream)@.waiting_for_idr_since is None,
{
    let view = old(stream)@;
    let frames = view.frames;
    let fresh = view.fresh_frames();
    lemma_fresh(view);
    let keep = |known: KnownFrame|
        view.current_frame matches Some(current) ==> known.index.0 >= current.0;
    assert(fresh =~= frames.filter(keep)) by {
        match view.current_frame {
            Some(current) => {
                let same = |known: KnownFrame| known.index.0 >= current.0;
                assert(keep =~= same);
                assert(frames.take(frames.len() as int) =~= frames);
                assert(frames.skip(frames.len() as int) =~= Seq::empty());
                assert(fresh =~= frames.filter(same));
            },
            None => {
                lemma_all_kept(frames, keep);
            },
        }
    }
    lemma_last_start_is_kept(frames, keep, i);
    assert(view.next_frame() == Some(frames[i].index));
    assert(fresh.contains(frames[i]));
    lemma_gave_out(view, now, i);
}

/// A filter that keeps everything changes nothing.
proof fn lemma_all_kept(frames: Seq<KnownFrame>, keep: spec_fn(KnownFrame) -> bool)
    requires
        forall|known: KnownFrame| #[trigger] keep(known),
    ensures
        frames.filter(keep) == frames,
    decreases frames.len(),
{
    reveal(Seq::filter);
    if frames.len() > 0 {
        lemma_all_kept(frames.drop_last(), keep);
        assert(frames.drop_last().push(frames.last()) =~= frames);
    }
}

/// Whether there is no frame to give out: the one that is due is not complete,
/// and no new start is looked for or none is there.
pub open spec fn has_none_to_give(view: VideoView) -> bool {
    &&& forall|i: int|
        0 <= i < view.frames.len() ==> (view.current_frame == Some((#[trigger] view.frames[i]).index)
            ==> view.frames[i].frame is None)
    &&& (view.waiting_for_idr_since is None && view.current_frame is Some) || has_no_start(view)
}

/// Whether a frame that is due, or a later one, is listed.
pub open spec fn one_is_listed_from(frames: Seq<KnownFrame>, current: FrameIndex) -> bool {
    exists|i: int| 0 <= i < frames.len() && (#[trigger] frames[i]).index.0 >= current.0
}

/// Since when the frame that is due is known to be on its way: since it was
/// first seen or, if none of it was, since the first of the later ones was; and
/// not at all if neither it nor a later one is listed.
pub open spec fn on_its_way_since(view: VideoView, since: Option<Instant>) -> bool {
    match view.current_frame {
        None => since is None,
        Some(current) => if !one_is_listed_from(view.frames, current) {
            since is None
        } else if view.first_seen.contains_key(current.0) {
            since == Some(view.first_seen[current.0])
        } else {
            match since {
                Some(since) => {
                    &&& exists|later: u32| #[trigger]
                        view.first_seen.contains_key(later) && later > current.0
                            && view.first_seen[later] == since
                    &&& forall|later: u32| #[trigger]
                        view.first_seen.contains_key(later) && later > current.0 ==> since.nanos
                            <= view.first_seen[later].nanos
                },
                None => forall|later: u32| #[trigger]
                    view.first_seen.contains_key(later) ==> later <= current.0,
            }
        },
    }
}

/// When the stream counts as broken: two seconds after the last frame was given
/// out, or a tenth of a second after the frame that is due was on its way.
pub open spec fn broken_from(view: VideoView, since: Option<Instant>) -> int {
    let stall = view.last_frame.nanos + 2_000_000_000;
    match since {
        Some(since) => if since.nanos + 100_000_000 < stall {
            since.nanos + 100_000_000
        } else {
            stall
        },
        None => stall,
    }
}

/// Whether what the stream remembers lies in the past, and not too far for an
/// instant to tell.
pub open spec fn remembers_the_past(view: VideoView, since: Option<Instant>) -> bool {
    &&& 0 <= view.last_now.nanos - view.last_frame.nanos <= i64::MAX
    &&& since matches Some(since) ==> 0 <= view.last_now.nanos - since.nanos <= i64::MAX
    &&& view.waiting_for_idr_since matches Some(last) ==> 0 <= view.last_now.nanos - last.nanos
        <= i64::MAX
}

/// Whether nothing that the stream remembers lies too far in the past for an
/// instant to tell. It may lie in the future, where a clock was set back.
pub open spec fn remembers_no_eternity(view: VideoView, since: Option<Instant>) -> bool {
    &&& view.last_now.nanos - view.last_frame.nanos <= i64::MAX
    &&& since matches Some(since) ==> view.last_now.nanos - since.nanos <= i64::MAX
    &&& view.waiting_for_idr_since matches Some(last) ==> view.last_now.nanos - last.nanos
        <= i64::MAX
}

/// What asking for a new start leaves, if it is asked for exactly when the
/// stream is broken and no request was made within the last second.
pub open spec fn asked_if_broken(view: VideoView, since: Option<Instant>, after: VideoView) -> bool {
    let broken = view.last_now.nanos >= broken_from(view, since);
    let may_ask = view.waiting_for_idr_since matches Some(last) ==> view.last_now.nanos - last.nanos
        >= 1_000_000_000;
    after == if broken && may_ask {
        VideoView {
            waiting_for_idr_since: Some(view.last_now),
            events: view.events.push(VideoStreamEvent::SignalIdr),
            ..view
        }
    } else {
        view
    }
}

/// Since when the frame that is due is on its way is what is found.
proof fn lemma_evidence(view: VideoView, since: Option<Instant>)
    requires
        on_its_way_since(view, since),
    ensures
        view.current_frame matches Some(current) ==> {
            let listed = some_later(view.frames, current) || is_known(view.frames, current);
            &&& listed ==> evidence(view.first_seen, current) == since
            &&& !listed ==> since is None
        },
{
    if let Some(current) = view.current_frame {
        let listed = some_later(view.frames, current) || is_known(view.frames, current);
        assert(listed == one_is_listed_from(view.frames, current)) by {
            if some_later(view.frames, current) {
                let i = choose|i: int|
                    0 <= i < view.frames.len() && (#[trigger] view.frames[i]).index.0 > current.0;
                assert(view.frames[i].index.0 >= current.0);
            }
            if is_known(view.frames, current) {
                let i = choose|i: int|
                    0 <= i < view.frames.len() && (#[trigger] view.frames[i]).index == current;
                assert(view.frames[i].index.0 >= current.0);
            }
            if one_is_listed_from(view.frames, current) {
                let i = choose|i: int|
                    0 <= i < view.frames.len() && (#[trigger] view.frames[i]).index.0 >= current.0;
                if view.frames[i].index.0 == current.0 {
                    assert(view.frames[i].index == current);
                }
            }
        }
        if listed && !view.first_seen.contains_key(current.0) {
            if let Some(time) = since {
                assert(is_earliest_later(view.first_seen, current, time));
                let chosen = choose|time: Instant|
                    is_earliest_later(view.first_seen, current, time);
                assert(is_earliest_later(view.first_seen, current, chosen));
                assert(chosen.nanos == time.nanos);
                assert(chosen == time);
            }
            assert(evidence(view.first_seen, current) == since);
        }
    }
}

/// How long to wait until the stream is broken.
proof fn lemma_wait(view: VideoView, since: Option<Instant>)
    requires
        on_its_way_since(view, since),
        remembers_no_eternity(view, since),
    ensures
        (view.wait_until_idr() == 0) == (view.last_now.nanos >= broken_from(view, since)),
        remembers_the_past(view, since) ==> view.wait_until_idr() == if broken_from(view, since)
            <= view.last_now.nanos {
            0
        } else {
            broken_from(view, since) - view.last_now.nanos
        },
{
    lemma_evidence(view, since);
}

/// An update that has no frame to give out drops only frames before the one that
/// is due, notes since when each frame is known, and asks for a new start
/// exactly when the stream is broken.
pub proof fn law_new_start_is_asked_for_when_broken(
    stream: &mut VideoStream,
    now: Instant,
    result: Result<(), VideoStreamError>,
    noted: VideoView,
    since: Option<Instant>,
)
    requires
        old(stream)@.wf(),
        old(stream)@.last_now == now,
        call_ensures(VideoStream::update, (stream, now), result),
        has_none_to_give(old(stream)@),
        noted == (VideoView {
            frames: final(stream)@.frames,
            first_seen: final(stream)@.first_seen,
            discarded: final(stream)@.discarded,
            ..old(stream)@
        }),
        on_its_way_since(noted, since),
        remembers_no_eternity(noted, since),
    ensures
        result is Ok,
        asked_if_broken(noted, since, final(stream)@),
        forall|i: int|
            0 <= i < noted.frames.len() ==> old(stream)@.frames.contains(#[trigger] noted.frames[i]),
        forall|i: int|
            0 <= i < old(stream)@.frames.len() && (old(stream)@.current_frame matches Some(current)
                ==> old(stream)@.frames[i].index.0 >= current.0) ==> noted.frames.contains(
                #[trigger] old(stream)@.frames[i],
            ),
        forall|index: u32| #[trigger]
            noted.first_seen.contains_key(index) <==> old(stream)@.first_seen.contains_key(index)
                || is_listed(old(stream)@.frames, index),
        forall|index: u32| #[trigger]
            noted.first_seen.contains_key(index) ==> noted.first_seen[index] == if old(stream)@.first_seen.contains_key(index) {
                old(stream)@.first_seen[index]
            } else {
                now
            },
{
    let view = old(stream)@;
    let fresh = view.fresh_frames();
    lemma_fresh(view);
    if view.waiting_for_idr_since is Some || view.current_frame is None {
        lemma_no_start(view);
    }
    if let Some(current) = view.current_frame {
        if is_available(fresh, current) {
            let k = choose|k: int|
                0 <= k < fresh.len() && (#[trigger] fresh[k]).index == current
                    && fresh[k].frame is Some;
            assert(view.frames.contains(fresh[k]));
            let m = choose|m: int| 0 <= m < view.frames.len() && view.frames[m] == fresh[k];
            assert(view.frames[m].index == current);
        }
    }
    assert(view.next_frame() is None);
    assert(noted.frames == fresh);
    assert(noted.first_seen == view.seen_by(now));
    lemma_wait(noted, since);
    assert(final(stream)@ == noted.after_idr_request());
    assert forall|index: u32| #[trigger]
        noted.first_seen.contains_key(index) <==> view.first_seen.contains_key(index) || is_listed(
            view.frames,
            index,
        ) by {
        lemma_listed(view.frames, index);
    }
}

/// A stream that waits for no new start, has given out a frame less than two
/// seconds ago and has no frame listed asks for nothing.
pub proof fn law_healthy_stream_asks_for_nothing(
    stream: &mut VideoStream,
    now: Instant,
    result: Result<(), VideoStreamError>,
)
    requires
        old(stream)@.wf(),
        old(stream)@.last_now == now,
        call_ensures(VideoStream::update, (stream, now), result),
        old(stream)@.frames.len() == 0,
        old(stream)@.waiting_for_idr_since is None,
        0 <= now.nanos - old(stream)@.last_frame.nanos < 2_000_000_000,
    ensures
        final(stream)@ == old(stream)@,
{
    let view = old(stream)@;
    let noted = VideoView {
        frames: final(stream)@.frames,
        first_seen: final(stream)@.first_seen,
        discarded: final(stream)@.discarded,
        ..view
    };
    lemma_fresh(view);
    lemma_last_idr(view.fresh_frames());
    assert(view.next_frame() is None);
    assert(noted.frames =~= view.fresh_frames());
    if noted.frames.len() > 0 {
        assert(view.frames.contains(noted.frames[0]));
    }
    assert(noted.frames =~= view.frames);
    assert(on_its_way_since(noted, None));
    law_new_start_is_asked_for_when_broken(stream, now, result, noted, None);
    assert(noted.first_seen =~= view.first_seen);
    assert(view.stale_frames() =~= Seq::empty()) by {
        reveal(Seq::filter);
        if let Some(current) = view.current_frame {
            assert(view.frames.take(0) =~= Seq::empty());
        }
    }
    assert(noted.discarded =~= view.discarded);
}

/// The same request by itself, without looking for a frame.
pub proof fn law_request_is_made_when_broken(
    stream: &mut VideoStream,
    result: Result<(), VideoStreamError>,
    since: Option<Instant>,
)
    requires
        call_ensures(VideoStream::do_idr_request, (stream,), result),
        on_its_way_since(old(stream)@, since),
        remembers_no_eternity(old(stream)@, since),
    ensures
        result is Ok,
        asked_if_broken(old(stream)@, since, final(stream)@),
{
    lemma_wait(old(stream)@, since);
}

/// A stream has to be told the time when it would ask for a new start, which is
/// not before a second after it last did, or when the next ping is due.
pub proof fn law_deadline_is_the_next_request_or_ping(
    stream: &VideoStream,
    deadline: Option<Instant>,
    since: Option<Instant>,
)
    requires
        stream@.wf(),
        call_ensures(VideoStream::poll_timeout, (stream,), deadline),
        on_its_way_since(stream@, since),
        remembers_the_past(stream@, since),
    ensures
        ({
            let broken = if broken_from(stream@, since) < stream@.last_now.nanos {
                stream@.last_now.nanos as int
            } else {
                broken_from(stream@, since)
            };
            let request = match stream@.waiting_for_idr_since {
                Some(last) => if broken < last.nanos + 1_000_000_000 {
                    last.nanos + 1_000_000_000
                } else {
                    broken
                },
                None => broken,
            };
            &&& deadline matches Some(deadline)
            &&& deadline.nanos == if stream@.ping.state is Pinging
                && stream@.ping.next_ping.nanos < request {
                stream@.ping.next_ping.nanos as int
            } else {
                request
            }
        }),
{
    lemma_wait(stream@, since);
}

/// Telling the time is noting it, telling the ping sender, and an update.
pub proof fn law_time_is_told_to_all_parts(
    stream: &mut VideoStream,
    now: Instant,
    result: Result<(), VideoStreamError>,
    sender: &mut PingSender,
    updating: &mut VideoStream,
    updated: Result<(), VideoStreamError>,
)
    requires
        call_ensures(VideoStream::handle_timeout, (stream, now), result),
        old(sender)@ == old(stream)@.ping,
        call_ensures(PingSender::handle_timeout, (sender, now), ()),
        old(updating)@ == (VideoView { last_now: now, ping: final(sender)@, ..old(stream)@ }),
        call_ensures(VideoStream::update, (updating, now), updated),
    ensures
        result is Ok,
        final(stream)@ == final(updating)@,
{
}

/// A datagram from elsewhere only tells the time.
pub proof fn law_datagram_from_elsewhere_tells_the_time(
    stream: &mut VideoStream,
    now: Instant,
    addr: SocketAddr,
    reports: Result<Vec<FrameReport>, VideoDepayloaderError>,
    result: Result<(), VideoStreamError>,
    timing: &mut VideoStream,
    told: Result<(), VideoStreamError>,
)
    requires
        addr != old(stream)@.addr,
        call_ensures(VideoStream::handle_receive, (stream, now, addr, reports), result),
        *old(timing) == *old(stream),
        call_ensures(VideoStream::handle_timeout, (timing, now), told),
    ensures
        result is Ok,
        final(stream)@ == final(timing)@,
{
}

/// The last report that completes a frame.
pub open spec fn last_complete(reports: Seq<FrameReport>, index: u32) -> Option<OwnedVideoFrame>
    decreases reports.len(),
{
    if reports.len() == 0 {
        None
    } else {
        match reports.last() {
            FrameReport::Complete(frame) => if frame.frame_index.0 == index {
                Some(frame)
            } else {
                last_complete(reports.drop_last(), index)
            },
            FrameReport::Seen(_) => last_complete(reports.drop_last(), index),
        }
    }
}

/// Whether a report is about a frame.
pub open spec fn is_about(report: FrameReport, index: u32) -> bool {
    match report {
        FrameReport::Seen(seen) => seen.0 == index,
        FrameReport::Complete(frame) => frame.frame_index.0 == index,
    }
}

/// The frame that is listed under a number as complete.
pub open spec fn complete_frame(frames: Seq<KnownFrame>, index: u32) -> Option<OwnedVideoFrame> {
    if exists|i: int| 0 <= i < frames.len() && (#[trigger] frames[i]).index.0 == index {
        frames[choose|i: int| 0 <= i < frames.len() && (#[trigger] frames[i]).index.0 == index].frame
    } else {
        None
    }
}

/// A frame that is listed once is the one that is found.
proof fn lemma_complete_frame(frames: Seq<KnownFrame>, index: u32, i: int)
    requires
        frames_wf(frames),
        0 <= i < frames.len(),
        frames[i].index.0 == index,
    ensures
        complete_frame(frames, index) == frames[i].frame,
{
    let j = choose|j: int| 0 <= j < frames.len() && (#[trigger] frames[j]).index.0 == index;
    assert(frames[j].index == frames[i].index);
    if j != i {
        assert(frames[j].index != frames[i].index);
    }
}

/// What taking datagrams apart told is listed: a frame is listed if it was or if
/// something of it arrived, and is complete if it was or if it was completed,
/// as it was completed last. Frames that were listed keep their places.
pub proof fn law_reports_are_listed(
    frames: Seq<KnownFrame>,
    reports: Seq<FrameReport>,
    index: u32,
)
    requires
        frames_wf(frames),
    ensures
        frames_wf(with_reports(frames, reports)),
        with_reports(frames, reports).len() >= frames.len(),
        forall|i: int|
            0 <= i < frames.len() ==> (#[trigger] with_reports(frames, reports)[i]).index
                == frames[i].index,
        is_listed(with_reports(frames, reports), index) <==> is_listed(frames, index) || exists|
            i: int,
        |
            0 <= i < reports.len() && is_about(#[trigger] reports[i], index),
        complete_frame(with_reports(frames, reports), index) == match last_complete(
            reports,
            index,
        ) {
            Some(frame) => Some(frame),
            None => complete_frame(frames, index),
        },
    decreases reports.len(),
{
    if reports.len() > 0 {
        let before = reports.drop_last();
        let listed = with_reports(frames, before);
        let out = with_reports(frames, reports);
        law_reports_are_listed(frames, before, index);
        assert(forall|i: int| 0 <= i < before.len() ==> before[i] == reports[i]);
        let about_before = exists|i: int|
            0 <= i < before.len() && is_about(#[trigger] before[i], index);
        let about = exists|i: int|
            0 <= i < reports.len() && is_about(#[trigger] reports[i], index);
        assert(about == (about_before || is_about(reports.last(), index))) by {
            if about_before {
                let i = choose|i: int| 0 <= i < before.len() && is_about(
                    #[trigger] before[i],
                    index,
                );
                assert(is_about(reports[i], index));
            }
            if is_about(reports.last(), index) {
                assert(is_about(reports[reports.len() - 1], index));
            }
            if about {
                let i = choose|i: int| 0 <= i < reports.len() && is_about(
                    #[trigger] reports[i],
                    index,
                );
                if i < before.len() {
                    assert(is_about(before[i], index));
                }
            }
        }
        match reports.last() {
            FrameReport::Seen(seen) => {
                lemma_seen_wf(listed, seen);
                lemma_listed(listed, seen.0);
                lemma_one_more(listed, out, seen, index);
            },
            FrameReport::Complete(frame) => {
                lemma_complete_wf(listed, frame);
                lemma_listed(listed, frame.frame_index.0);
                lemma_position(listed, frame.frame_index);
                lemma_one_completed(listed, out, frame, index);
            },
        }
    }
}

/// What one more frame that was seen changes.
proof fn lemma_one_more(
    frames: Seq<KnownFrame>,
    out: Seq<KnownFrame>,
    seen: FrameIndex,
    index: u32,
)
    requires
        frames_wf(frames),
        frames_wf(out),
        out == with_seen(frames, seen),
    ensures
        is_listed(out, index) == (is_listed(frames, index) || seen.0 == index),
        complete_frame(out, index) == complete_frame(frames, index),
{
    lemma_listed(frames, seen.0);
    if !is_known(frames, seen) {
        assert(out[frames.len() as int].index == seen);
        if is_listed(frames, index) {
            let i = choose|i: int|
                0 <= i < frames.len() && (#[trigger] frames[i]).index.0 == index;
            assert(out[i] == frames[i]);
            lemma_complete_frame(frames, index, i);
            lemma_complete_frame(out, index, i);
        } else if seen.0 == index {
            lemma_complete_frame(out, index, frames.len() as int);
        } else if is_listed(out, index) {
            let i = choose|i: int| 0 <= i < out.len() && (#[trigger] out[i]).index.0 == index;
            assert(out[i] == frames[i]);
        }
    }
}

/// What one more frame that was completed changes.
proof fn lemma_one_completed(
    frames: Seq<KnownFrame>,
    out: Seq<KnownFrame>,
    frame: OwnedVideoFrame,
    index: u32,
)
    requires
        frames_wf(frames),
        frames_wf(out),
        out == with_complete(frames, frame),
    ensures
        is_listed(out, index) == (is_listed(frames, index) || frame.frame_index.0 == index),
        complete_frame(out, index) == if frame.frame_index.0 == index {
            Some(frame)
        } else {
            complete_frame(frames, index)
        },
{
    let at = position(frames, frame.frame_index);
    lemma_position(frames, frame.frame_index);
    let placed = if is_known(frames, frame.frame_index) {
        at
    } else {
        frames.len() as int
    };
    assert(out[placed].index == frame.frame_index && out[placed].frame == Some(frame));
    assert(forall|i: int| 0 <= i < frames.len() && i != placed ==> out[i] == frames[i]);
    if frame.frame_index.0 == index {
        lemma_complete_frame(out, index, placed);
    } else if is_listed(frames, index) {
        let i = choose|i: int| 0 <= i < frames.len() && (#[trigger] frames[i]).index.0 == index;
        assert(i != placed);
        assert(out[i] == frames[i]);
        lemma_complete_frame(frames, index, i);
        lemma_complete_frame(out, index, i);
    } else if is_listed(out, index) {
        let i = choose|i: int| 0 <= i < out.len() && (#[trigger] out[i]).index.0 == index;
        assert(i != placed);
        assert(out[i] == frames[i]);
    }
}

/// A datagram from the host ends the pings and tells the time; what it told of
/// frames is listed, and then an update follows. If it cannot be taken apart,
/// that is the error, and no update follows.
pub proof fn law_datagram_from_the_host_is_taken_in(
    stream: &mut VideoStream,
    now: Instant,
    reports: Result<Vec<FrameReport>, VideoDepayloaderError>,
    result: Result<(), VideoStreamError>,
    sender: &mut PingSender,
    updating: &mut VideoStream,
    updated: Result<(), VideoStreamError>,
)
    requires
        call_ensures(
            VideoStream::handle_receive,
            (stream, now, old(stream)@.addr, reports),
            result,
        ),
        old(sender)@ == old(stream)@.ping,
        call_ensures(PingSender::handle_timeout, (sender, now), ()),
        old(updating)@ == (VideoView {
            last_now: now,
            ping: PingView { state: PingSenderState::Finished, ..final(sender)@ },
            frames: match reports {
                Ok(reports) => with_reports(old(stream)@.frames, reports@),
                Err(_) => old(stream)@.frames,
            },
            ..old(stream)@
        }),
        call_ensures(VideoStream::update, (updating, now), updated),
    ensures
        reports is Ok ==> result is Ok && final(stream)@ == final(updating)@,
        reports matches Err(error) ==> result == Err::<(), VideoStreamError>(
            VideoStreamError::Depayloader(error),
        ) && final(stream)@ == old(updating)@,
{
}

/// A new stream looks for a first frame, has received nothing, and pings at
/// once.
pub proof fn law_new_stream_waits_for_a_start(
    now: Instant,
    config: VideoStreamConfig,
    stream: VideoStream,
)
    requires
        call_ensures(VideoStream::new, (now, config), stream),
    ensures
        stream@.addr == config.addr,
        stream@.last_now == now,
        stream@.last_frame == now,
        stream@.waiting_for_idr_since == Some(now),
        stream@.first_frame is None,
        stream@.current_frame is None,
        stream@.frames.len() == 0,
        stream@.events.len() == 0,
        stream@.discarded.len() == 0,
        forall|index: u32| !#[trigger] stream@.first_seen.contains_key(index),
        stream@.ping.sunshine_ping == config.sunshine_ping,
        stream@.ping.state is Pinging,
        stream@.ping.next_ping == now,
        stream@.ping.count == 0,
        stream@.ping.pending is None,
{
}

/// Events are taken in the order in which they came.
pub proof fn law_events_are_taken_in_order(
    stream: &mut VideoStream,
    event: Option<VideoStreamEvent>,
)
    requires
        call_ensures(VideoStream::poll_event, (stream,), event),
    ensures
        match event {
            Some(event) => old(stream)@.events == seq![event] + final(stream)@.events,
            None => old(stream)@.events.len() == 0 && final(stream)@.events.len() == 0,
        },
        final(stream)@ == (VideoView { events: final(stream)@.events, ..old(stream)@ }),
{
    if event is Some {
        assert(old(stream)@.events =~= seq![event->0] + final(stream)@.events);
    }
}

/// A frame that is due and complete is what the caller gets next, if no event
/// waited before it.
pub proof fn law_due_frame_reaches_the_caller(
    stream: &mut VideoStream,
    now: Instant,
    result: Result<(), VideoStreamError>,
    i: int,
    taking: &mut VideoStream,
    event: Option<VideoStreamEvent>,
)
    requires
        old(stream)@.wf(),
        call_ensures(VideoStream::update, (stream, now), result),
        0 <= i < old(stream)@.frames.len(),
        old(stream)@.frames[i].frame is Some,
        old(stream)@.current_frame == Some(old(stream)@.frames[i].index),
        old(stream)@.waiting_for_idr_since is None,
        old(stream)@.events.len() == 0,
        *old(taking) == *final(stream),
        call_ensures(VideoStream::poll_event, (taking,), event),
    ensures
        event == Some(VideoStreamEvent::OnFrame(old(stream)@.frames[i].frame->0)),
{
    law_due_frame_is_given_out(stream, now, result, i);
}

/// The decoder's request becomes an event; it changes nothing else.
pub proof fn law_decoder_can_ask(stream: &mut VideoStream)
    requires
        call_ensures(VideoStream::request_idr, (stream,), ()),
    ensures
        final(stream)@ == (VideoView {
            events: old(stream)@.events.push(VideoStreamEvent::SignalIdr),
            ..old(stream)@
        }),
{
}

/// Pings go to the host, and are forgotten once they were sent; datagrams are
/// taken from the host alone.
pub proof fn law_pings_go_to_the_host(
    stream: &VideoStream,
    datagram: Option<(SocketAddr, &Vec<u8>)>,
    addr: SocketAddr,
    accepted: bool,
    sending: &mut VideoStream,
)
    requires
        call_ensures(VideoStream::pending_send, (stream,), datagram),
        call_ensures(VideoStream::accepts, (stream, addr), accepted),
        call_ensures(VideoStream::consume_send, (sending,), ()),
    ensures
        datagram is Some <==> stream@.ping.pending is Some,
        datagram matches Some((to, bytes)) ==> to == stream@.addr && stream@.ping.pending == Some(
            bytes@,
        ),
        accepted == (addr == stream@.addr),
        final(sending)@ == (VideoView {
            ping: PingView { pending: None, ..old(sending)@.ping },
            ..old(sending)@
        }),
{
}

/// The numbers of dropped frames are handed over once, and how many frames are
/// remembered is told.
pub proof fn law_dropped_frames_are_handed_over(
    stream: &mut VideoStream,
    dropped: Vec<FrameIndex>,
    remembering: &VideoStream,
    len: usize,
)
    requires
        call_ensures(VideoStream::take_discarded, (stream,), dropped),
        call_ensures(VideoStream::frames_first_seen_len, (remembering,), len),
    ensures
        dropped@ == old(stream)@.discarded,
        final(stream)@ == (VideoView { discarded: Seq::empty(), ..old(stream)@ }),
        len == remembering@.first_seen.dom().len(),
{
}

/// Every frame that an update drops is told of, and only such frames: those
/// before the one that is due, as far as not more than two hundred are listed.
pub proof fn law_update_tells_what_it_drops(
    stream: &mut VideoStream,
    now: Instant,
    result: Result<(), VideoStreamError>,
    current: FrameIndex,
    index: FrameIndex,
)
    requires
        old(stream)@.wf(),
        call_ensures(VideoStream::update, (stream, now), result),
        old(stream)@.current_frame == Some(current),
        old(stream)@.frames.len() <= 200,
    ensures
        ({
            let told = old(stream)@.discarded.len() as int;
            &&& final(stream)@.discarded.len() >= told
            &&& final(stream)@.discarded.take(told) == old(stream)@.discarded
            &&& final(stream)@.discarded.skip(told).contains(index) <==> is_listed(
                old(stream)@.frames,
                index.0,
            ) && index.0 < current.0
        }),
{
    let view = old(stream)@;
    let frames = view.frames;
    let told = view.discarded.len() as int;
    let stale = view.stale_frames();
    assert(final(stream)@.discarded == view.discarded + stale);
    assert(final(stream)@.discarded.take(told) =~= view.discarded);
    assert(final(stream)@.discarded.skip(told) =~= stale);
    law_dropped_frames_are_told(frames, current, index);
    lemma_fresh(view);
    lemma_listed(frames, index.0);
    let fresh = without_old(frames, current);
    if is_known(frames, index) {
        let i = choose|i: int| 0 <= i < frames.len() && (#[trigger] frames[i]).index == index;
        if index.0 >= current.0 {
            assert(fresh.contains(frames[i]));
            let k = choose|k: int| 0 <= k < fresh.len() && fresh[k] == frames[i];
            assert(fresh[k].index == index);
        } else if is_known(fresh, index) {
            let k = choose|k: int| 0 <= k < fresh.len() && (#[trigger] fresh[k]).index == index;
            assert(fresh[k].index.0 >= current.0);
        }
    }
}

/// A list of frames tells what is listed: which frames are known, which are
/// complete, whether there are later ones, and the last one at which decoding
/// can start.
pub proof fn law_list_tells_what_is_listed(
    queue: &FrameQueue,
    index: FrameIndex,
    known: bool,
    available: bool,
    later: bool,
    start: Option<FrameIndex>,
)
    requires
        frames_wf(queue@),
        call_ensures(FrameQueue::is_frame_known, (queue, index), known),
        call_ensures(FrameQueue::is_frame_available, (queue, index), available),
        call_ensures(FrameQueue::has_later, (queue, index), later),
        call_ensures(FrameQueue::find_idr, (queue,), start),
    ensures
        known == is_listed(queue@, index.0),
        available == complete_frame(queue@, index.0) is Some,
        later <==> exists|i: int| 0 <= i < queue@.len() && (#[trigger] queue@[i]).index.0 > index.0,
        start is None <==> forall|i: int| 0 <= i < queue@.len() ==> !can_start(#[trigger] queue@[i]),
        start matches Some(start) ==> exists|i: int|
            {
                &&& 0 <= i < queue@.len()
                &&& (#[trigger] queue@[i]).index == start
                &&& can_start(queue@[i])
                &&& forall|j: int| i < j < queue@.len() ==> !can_start(#[trigger] queue@[j])
            },
{
    lemma_listed(queue@, index.0);
    if available {
        let i = choose|i: int|
            0 <= i < queue@.len() && (#[trigger] queue@[i]).index == index
                && queue@[i].frame is Some;
        lemma_complete_frame(queue@, index.0, i);
    } else if is_listed(queue@, index.0) {
        let i = choose|i: int| 0 <= i < queue@.len() && (#[trigger] queue@[i]).index.0 == index.0;
        assert(queue@[i].index == index);
        lemma_complete_frame(queue@, index.0, i);
    }
    lemma_last_start(queue@);
}

/// The last frame at which decoding can start has no such frame after it.
proof fn lemma_last_start(frames: Seq<KnownFrame>)
    ensures
        last_idr(frames) is None <==> forall|i: int|
            0 <= i < frames.len() ==> !can_start(#[trigger] frames[i]),
        last_idr(frames) matches Some(start) ==> exists|i: int|
            {
                &&& 0 <= i < frames.len()
                &&& (#[trigger] frames[i]).index == start
                &&& can_start(frames[i])
                &&& forall|j: int| i < j < frames.len() ==> !can_start(#[trigger] frames[j])
            },
    decreases frames.len(),
{
    if frames.len() > 0 {
        let rest = frames.drop_last();
        let last = frames.len() - 1;
        lemma_last_start(rest);
        assert(forall|i: int| 0 <= i < rest.len() ==> rest[i] == frames[i]);
        assert(frames[last] == frames.last());
        if !is_available_idr(frames.last()) && last_idr(rest) is Some {
            let i = choose|i: int|
                {
                    &&& 0 <= i < rest.len()
                    &&& (#[trigger] rest[i]).index == last_idr(rest)->0
                    &&& can_start(rest[i])
                    &&& forall|j: int| i < j < rest.len() ==> !can_start(#[trigger] rest[j])
                };
            assert(frames[i].index == last_idr(frames)->0);
            assert forall|j: int| i < j < frames.len() implies !can_start(#[trigger] frames[j]) by {
                if j < last {
                    assert(rest[j] == frames[j]);
                }
            }
        } else if !is_available_idr(frames.last()) {
            assert forall|i: int| 0 <= i < frames.len() implies !can_start(#[trigger] frames[i]) by {
                if i < last {
                    assert(rest[i] == frames[i]);
                }
            }
        } else {
            assert(can_start(frames[last]));
        }
    }
}

/// A new list is empty; what is noted in a list is what reports about frames
/// say.
pub proof fn law_list_notes_what_is_reported(
    fresh: FrameQueue,
    seeing: &mut FrameQueue,
    index: FrameIndex,
    completing: &mut FrameQueue,
    frame: OwnedVideoFrame,
    queue: &FrameQueue,
    len: usize,
    i: usize,
    listed: FrameIndex,
)
    requires
        call_ensures(FrameQueue::new, (), fresh),
        call_ensures(FrameQueue::see, (seeing, index), ()),
        call_ensures(FrameQueue::complete, (completing, frame), ()),
        call_ensures(FrameQueue::len, (queue,), len),
        call_ensures(FrameQueue::index_at, (queue, i), listed),
    ensures
        fresh@.len() == 0,
        final(seeing)@ == with_reports(old(seeing)@, seq![FrameReport::Seen(index)]),
        final(completing)@ == with_reports(old(completing)@, seq![FrameReport::Complete(frame)]),
        len == queue@.len(),
        listed == queue@[i as int].index,
{
    reveal_with_fuel(with_reports, 2);
    assert(seq![FrameReport::Seen(index)].drop_last() =~= Seq::empty());
    assert(seq![FrameReport::Complete(frame)].drop_last() =~= Seq::empty());
}

/// Taking a frame out of a list gives it out if it is complete, and then it is
/// no longer listed; all other frames stay.
pub proof fn law_list_gives_out_a_frame(
    queue: &mut FrameQueue,
    index: FrameIndex,
    frame: Option<OwnedVideoFrame>,
)
    requires
        frames_wf(old(queue)@),
        call_ensures(FrameQueue::take_frame, (queue, index), frame),
    ensures
        frame == complete_frame(old(queue)@, index.0),
        frame is None ==> final(queue)@ == old(queue)@,
        frame is Some ==> !is_listed(final(queue)@, index.0),
        forall|i: int|
            0 <= i < old(queue)@.len() && old(queue)@[i].index != index ==> final(queue)@.contains(
                #[trigger] old(queue)@[i],
            ),
{
    let frames = old(queue)@;
    let out = final(queue)@;
    lemma_listed(frames, index.0);
    lemma_listed(out, index.0);
    lemma_position(frames, index);
    if is_known(frames, index) {
        let at = position(frames, index);
        lemma_complete_frame(frames, index.0, at);
        if is_available(frames, index) {
            lemma_without_wf(frames, index);
            assert(out == frames.remove(at));
        } else {
            assert(frames[at].frame is None);
        }
    } else if is_available(frames, index) {
        let i = choose|i: int|
            0 <= i < frames.len() && (#[trigger] frames[i]).index == index
                && frames[i].frame is Some;
        assert(is_known(frames, index));
    }
    assert forall|i: int| 0 <= i < frames.len() && frames[i].index != index implies out.contains(
        #[trigger] frames[i],
    ) by {
        if is_available(frames, index) {
            let at = position(frames, index);
            assert(is_known(frames, index));
            assert(out[if i < at {
                i
            } else {
                i - 1
            }] == frames[i]);
        } else {
            assert(out[i] == frames[i]);
        }
    }
}

/// Dropping the frames before one leaves the others, and tells which were
/// dropped, as far as not more than two hundred are listed.
pub proof fn law_list_drops_old_frames(
    queue: &mut FrameQueue,
    current: FrameIndex,
    dropped: Vec<FrameIndex>,
    index: FrameIndex,
)
    requires
        frames_wf(old(queue)@),
        old(queue)@.len() <= 200,
        call_ensures(FrameQueue::discard_before, (queue, current), dropped),
    ensures
        is_listed(final(queue)@, index.0) <==> is_listed(old(queue)@, index.0) && index.0
            >= current.0,
        index.0 >= current.0 ==> complete_frame(final(queue)@, index.0) == complete_frame(
            old(queue)@,
            index.0,
        ),
        dropped@.contains(index) <==> is_listed(old(queue)@, index.0) && index.0 < current.0,
{
    let frames = old(queue)@;
    let out = final(queue)@;
    let keep = |known: KnownFrame| known.index.0 >= current.0;
    lemma_without_old_wf(frames, current);
    law_dropped_frames_are_told(frames, current, index);
    lemma_listed(frames, index.0);
    lemma_listed(out, index.0);
    assert(frames.take(frames.len() as int) =~= frames);
    assert(frames.skip(frames.len() as int) =~= Seq::empty());
    assert(out =~= frames.filter(keep));
    if is_listed(frames, index.0) && index.0 >= current.0 {
        let i = choose|i: int| 0 <= i < frames.len() && (#[trigger] frames[i]).index.0 == index.0;
        frames.lemma_filter_contains(keep, i);
        let k = choose|k: int| 0 <= k < out.len() && out[k] == frames[i];
        assert(out[k].index.0 == index.0);
        lemma_complete_frame(frames, index.0, i);
        lemma_complete_frame(out, index.0, k);
    }
    if is_listed(out, index.0) {
        let k = choose|k: int| 0 <= k < out.len() && (#[trigger] out[k]).index.0 == index.0;
        assert(out[k].index.0 >= current.0);
        assert(frames.contains(out[k]));
        let i = choose|i: int| 0 <= i < frames.len() && frames[i] == out[k];
        assert(frames[i].index.0 == index.0);
    }
}

/// A sender that is told the time makes a ping if one is due, and the next one
/// is due half a second later. Otherwise nothing changes.
pub proof fn law_pings_are_half_a_second_apart(sender: &mut PingSender, now: Instant)
    requires
        now.can_add(500_000_000),
        call_ensures(PingSender::handle_timeout, (sender, now), ()),
    ensures
        ({
            let before = old(sender)@;
            let after = final(sender)@;
            if before.state is Pinging && now.nanos >= before.next_ping.nanos {
                &&& after.next_ping.nanos == now.nanos + 500_000_000
                &&& after.count == (before.count + 1) % 0x1_0000_0000
                &&& after.pending matches Some(bytes) && is_ping(
                    bytes,
                    before.sunshine_ping,
                    after.count,
                )
                &&& after.state == before.state
                &&& after.sunshine_ping == before.sunshine_ping
            } else {
                after == before
            }
        }),
{
    if let Some(bytes) = final(sender)@.pending {
        if let Some(ping) = old(sender)@.sunshine_ping {
            if old(sender)@.state is Pinging && now.nanos >= old(sender)@.next_ping.nanos {
                assert(bytes.take(16) =~= ping.payload@);
            }
        }
    }
}

/// What a ping is: what the Sunshine host asked for and then the number of the
/// ping, or the word for it.
pub open spec fn is_ping(bytes: Seq<u8>, sunshine_ping: Option<SunshinePing>, count: u32) -> bool {
    match sunshine_ping {
        Some(ping) => {
            &&& bytes.len() == 20
            &&& bytes.take(16) == ping.payload@
            &&& number_of_four(bytes, 16) == count
        },
        None => {
            &&& bytes.len() == 4
            &&& bytes[0] == 0x50
            &&& bytes[1] == 0x49
            &&& bytes[2] == 0x4E
            &&& bytes[3] == 0x47
        },
    }
}

/// A new sender pings at once; one that has finished never does again, and one
/// that has not wants to be told the time when the next ping is due.
pub proof fn law_sender_pings_until_it_is_finished(
    now: Instant,
    config: PingSenderConfig,
    fresh: PingSender,
    finishing: &mut PingSender,
    sender: &PingSender,
    deadline: Option<Instant>,
    state: PingSenderState,
)
    requires
        call_ensures(PingSender::new, (now, config), fresh),
        call_ensures(PingSender::set_finished, (finishing,), ()),
        call_ensures(PingSender::poll_timeout, (sender,), deadline),
        call_ensures(PingSender::state, (sender,), state),
    ensures
        fresh@.state is Pinging,
        fresh@.next_ping == now,
        fresh@.count == 0,
        fresh@.pending is None,
        fresh@.sunshine_ping == config.sunshine_ping,
        final(finishing)@ == (PingView { state: PingSenderState::Finished, ..old(finishing)@ }),
        deadline == if sender@.state is Pinging {
            Some(sender@.next_ping)
        } else {
            None
        },
        state == sender@.state,
{
}

/// A ping that was made waits until it is sent.
pub proof fn law_ping_waits_until_it_is_sent(
    sender: &PingSender,
    bytes: Option<&Vec<u8>>,
    sending: &mut PingSender,
)
    requires
        call_ensures(PingSender::pending_send, (sender,), bytes),
        call_ensures(PingSender::consume_send, (sending,), ()),
    ensures
        bytes is Some <==> sender@.pending is Some,
        bytes matches Some(bytes) ==> sender@.pending == Some(bytes@),
        final(sending)@ == (PingView { pending: None, ..old(sending)@ }),
{
}

} // verus!
