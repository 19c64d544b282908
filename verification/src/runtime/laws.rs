//! What holds while streams are run and while a session is opened.

use vstd::prelude::*;

use crate::control::stream::ControlStreamEvent;
use crate::runtime::connect::{
    answers_connect, connected, ConnectAction, ConnectReply, ConnectStep, Connecting, Parts,
    Session, StreamParts,
};
use crate::runtime::driver::{
    answers_drive, driven, DriveAction, DrivePhase, DriveReply, DriveStep, DriveView,
};
use crate::runtime::stream::MoonlightStreamError;
use crate::time::Instant;

verus! {

/// A stream is asked for an event only when nothing more is there to read and
/// no deadline has passed.
pub proof fn law_events_come_last<Event, Error>(view: DriveView, reply: DriveReply<Event, Error>)
    requires
        answers_drive(view.phase, reply),
    ensures
        driven(view, reply).1 == DriveStep::<Event, Error>::Do(DriveAction::PollEvent) ==> {
            ||| view.phase == DrivePhase::Scheduling && reply == DriveReply::<
                Event,
                Error,
            >::Deadline(None)
            ||| view.phase == DrivePhase::Sleeping && reply == DriveReply::<Event, Error>::Sleep(
                None,
            )
        },
        driven(view, reply).1 == DriveStep::<Event, Error>::Do(DriveAction::PollTimeout) ==> {
            &&& view.phase == (DrivePhase::Reading { received: false })
            &&& reply == DriveReply::<Event, Error>::Received(Ok(None))
        },
        driven(view, reply).1 matches DriveStep::Done(Ok(event)) ==> {
            &&& view.phase == DrivePhase::Reporting
            &&& reply == DriveReply::<Event, Error>::Event(event)
        },
{
}

/// The timer is set anew exactly when the deadline of the stream has changed,
/// and then is set to that deadline.
pub proof fn law_timer_follows_the_deadline<Event, Error>(
    view: DriveView,
    reply: DriveReply<Event, Error>,
)
    requires
        answers_drive(view.phase, reply),
    ensures
        driven(view, reply).0.old_deadline != view.old_deadline <==> driven(view, reply).1
            == DriveStep::<Event, Error>::Do(
            DriveAction::ResetSleep(driven(view, reply).0.old_deadline),
        ),
        driven(view, reply).0.phase == DrivePhase::Sleeping ==> reply == DriveReply::<
            Event,
            Error,
        >::Deadline(Some(driven(view, reply).0.old_deadline)),
{
}

/// A stream is told the time only after it was asked for its deadline, had one,
/// and the timer that is set to it ran out; and what it is told is the time
/// that the clock showed then.
pub proof fn law_time_is_told_after_the_deadline<Event, Error>(
    before: DriveView,
    asked: DriveReply<Event, Error>,
    reply: DriveReply<Event, Error>,
    now: Instant,
)
    requires
        answers_drive(before.phase, asked),
        answers_drive(driven(before, asked).0.phase, reply),
        driven(driven(before, asked).0, reply).1 == DriveStep::<Event, Error>::Do(
            DriveAction::HandleTimeout(now),
        ),
    ensures
        asked == DriveReply::<Event, Error>::Deadline(Some(driven(before, asked).0.old_deadline)),
        reply == DriveReply::<Event, Error>::Sleep(Some(now)),
{
}

/// With a timer that does not run out before the deadline that it is set to, a
/// stream is not told a time before its own deadline.
pub proof fn law_time_is_not_before_the_deadline<Event, Error>(
    before: DriveView,
    asked: DriveReply<Event, Error>,
    reply: DriveReply<Event, Error>,
    now: Instant,
)
    requires
        answers_drive(before.phase, asked),
        answers_drive(driven(before, asked).0.phase, reply),
        reply matches DriveReply::Sleep(Some(shown)) ==> shown.nanos >= driven(
            before,
            asked,
        ).0.old_deadline.nanos,
        driven(driven(before, asked).0, reply).1 == DriveStep::<Event, Error>::Do(
            DriveAction::HandleTimeout(now),
        ),
    ensures
        asked matches DriveReply::Deadline(Some(deadline)) && now.nanos >= deadline.nanos,
{
    law_time_is_told_after_the_deadline(before, asked, reply, now);
}

/// A datagram is handed to the stream with the time at which it was read.
pub proof fn law_datagrams_carry_their_time<Event, Error>(
    view: DriveView,
    reply: DriveReply<Event, Error>,
    now: Instant,
)
    requires
        answers_drive(view.phase, reply),
        driven(view, reply).1 == DriveStep::<Event, Error>::Do(DriveAction::HandleReceive(now)),
    ensures
        reply == DriveReply::<Event, Error>::Received(Ok(Some(now))),
{
}

/// After something was received or a deadline has passed, the stream gets a
/// chance to send before anything else happens.
pub proof fn law_sending_comes_after_receiving<Event, Error>(view: DriveView)
    ensures
        driven::<Event, Error>(
            view.to(DrivePhase::Reading { received: true }),
            DriveReply::Received(Ok(None)),
        ).1 == DriveStep::<Event, Error>::Do(DriveAction::PendingSend),
        driven::<Event, Error>(
            view.to(DrivePhase::TimingOut),
            DriveReply::TimedOut(Ok(())),
        ).1 == DriveStep::<Event, Error>::Do(DriveAction::PendingSend),
{
}

/// An error of the stream or the socket ends the run at once, and is what is
/// reported.
pub proof fn law_errors_end_the_run<Event, Error>(
    view: DriveView,
    reply: DriveReply<Event, Error>,
    error: Error,
)
    requires
        answers_drive(view.phase, reply),
        reply == DriveReply::<Event, Error>::Sent(Err(error)) || reply == DriveReply::<
            Event,
            Error,
        >::Received(Err(error)) || reply == DriveReply::<Event, Error>::Delivered(Err(error))
            || reply == DriveReply::<Event, Error>::TimedOut(Err(error)),
    ensures
        driven(view, reply).1 == DriveStep::<Event, Error>::Done(Err(error)),
{
}

/// A session is open only once actual audio has arrived, and audio is waited
/// for only once the control stream is connected.
pub proof fn law_audio_comes_before_the_session<P: StreamParts>(
    connecting: Connecting<P>,
    reply: ConnectReply<P>,
)
    requires
        answers_connect(connecting, reply),
    ensures
        connected(connecting, reply) matches ConnectStep::Done(Ok(session)) ==> {
            &&& connecting == Connecting::AwaitingAudio(session)
            &&& reply matches ConnectReply::Audio(Some(Ok(_)))
        },
        connected(connecting, reply) matches ConnectStep::Do(_, Connecting::AwaitingAudio(session))
            ==> {
            &&& connecting matches Connecting::AwaitingControl(before, _)
            &&& before == session
            &&& reply matches ConnectReply::Control { now, result }
            &&& result matches Some(Ok(ControlStreamEvent::Connect))
        },
{
}

/// While the control stream connects, other events neither end the wait nor
/// make it longer, and a wait that takes too long ends with a timeout.
pub proof fn law_waiting_for_control_is_bounded<P: StreamParts>(
    session: Session<P>,
    until: Instant,
    now: Instant,
    event: ControlStreamEvent,
)
    requires
        !(event is Connect),
    ensures
        connected(
            Connecting::AwaitingControl(session, until),
            ConnectReply::Control { now, result: Some(Ok(event)) },
        ) == ConnectStep::Do(
            ConnectAction::DriveControl { until },
            Connecting::AwaitingControl(session, until),
        ),
        connected(
            Connecting::AwaitingControl(session, until),
            ConnectReply::Control { now, result: None },
        ) == ConnectStep::<P>::Done(Err(MoonlightStreamError::ConnectionTimeout)),
        connected(Connecting::AwaitingAudio(session), ConnectReply::Audio(None)) == ConnectStep::<
            P,
        >::Done(Err(MoonlightStreamError::ConnectionTimeout)),
{
}

/// What has been set up so far, as long as not everything is.
pub open spec fn parts_of<P: StreamParts>(connecting: Connecting<P>) -> Option<Parts<P>> {
    match connecting {
        Connecting::Polling(parts) => Some(parts),
        Connecting::Opening(parts) => Some(parts),
        Connecting::Writing(parts) => Some(parts),
        Connecting::Waiting(parts) => Some(parts),
        Connecting::Informing(parts) => Some(parts),
        _ => None,
    }
}

/// What is set up stays set up.
pub proof fn law_parts_are_not_lost<P: StreamParts>(
    connecting: Connecting<P>,
    reply: ConnectReply<P>,
    before: Parts<P>,
    after: Parts<P>,
)
    requires
        answers_connect(connecting, reply),
        parts_of(connecting) == Some(before),
        connected(connecting, reply) matches ConnectStep::Do(_, next) && parts_of(next) == Some(
            after,
        ),
    ensures
        before.tcp_open ==> after.tcp_open,
        before.audio is Some ==> after.audio is Some,
        before.video is Some ==> after.video is Some,
        before.control is Some ==> after.control is Some,
        before.foundation_mic is Some ==> after.foundation_mic is Some,
{
}

/// What the session knows, and the streams that get a socket, are what was set
/// up.
pub proof fn law_session_is_what_was_set_up<P: StreamParts>(
    connecting: Connecting<P>,
    reply: ConnectReply<P>,
    before: Parts<P>,
)
    requires
        answers_connect(connecting, reply),
        parts_of(connecting) == Some(before),
    ensures
        connected(connecting, reply) matches ConnectStep::Do(
            ConnectAction::Bind(streams),
            Connecting::Binding(session),
        ) ==> {
            &&& before.audio == Some((session.audio_setup, streams.audio_stream))
            &&& before.video == Some((session.video_setup, streams.video_stream))
            &&& before.control == Some(streams.control_stream)
            &&& before.foundation_mic == streams.foundation_mic_stream
        },
{
}

} // verus!
