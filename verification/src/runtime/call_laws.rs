//! What each step of running a stream and of opening a session comes to.

use std::io;

use vstd::prelude::*;

use crate::control::host::ControlError;
use crate::control::stream::ControlStreamEvent;
use crate::net::SocketAddr;
use crate::runtime::connect::{
    ConnectAction, ConnectReply, ConnectStep, Connecting, MissingPart, Parts, Session, SetupInput,
    SetupOutput, StreamParts,
};
use crate::runtime::driver::{
    DriveAction, DriveMachine, DrivePhase, DriveReply, DriveStep, DriveView,
};
use crate::runtime::stream::{
    microphone_accepted, AudioStreamError, AudioStreamEvent, FoundationMicStreamError,
    MoonlightStreamError, MoonlightStreamEvent, MoonlightStreamProtoError,
};
use crate::time::{soonest, Instant};
use crate::video::stream::{VideoStreamError, VideoStreamEvent};

verus! {

/// Whether a driver goes on with `action` and then waits in `phase`; the timer
/// stays as it is.
pub open spec fn goes_on<Event, Error>(
    before: DriveView,
    after: DriveView,
    step: DriveStep<Event, Error>,
    action: DriveAction,
    phase: DrivePhase,
) -> bool {
    &&& step == DriveStep::<Event, Error>::Do(action)
    &&& after == (DriveView { phase, old_deadline: before.old_deadline })
}

/// Whether a run is over for a reason.
pub open spec fn fails<Event, Error>(
    before: DriveView,
    after: DriveView,
    step: DriveStep<Event, Error>,
    error: Error,
) -> bool {
    &&& step == DriveStep::<Event, Error>::Done(Err(error))
    &&& after == before
}

/// A new machine begins with what is to be sent. Its timer is set to the
/// deadline of the stream, or to a second from now if there is none.
pub proof fn law_new_machine_begins_with_sending(
    deadline: Option<Instant>,
    now: Instant,
    machine: DriveMachine,
    set_to: Instant,
    starting: &mut DriveMachine,
    action: DriveAction,
)
    requires
        now.can_add(1_000_000_000),
        call_ensures(DriveMachine::new, (deadline, now), machine),
        call_ensures(DriveMachine::deadline, (&machine,), set_to),
        call_ensures(DriveMachine::start, (starting,), action),
    ensures
        machine@.phase is Writing,
        deadline matches Some(deadline) ==> set_to == deadline,
        deadline is None ==> set_to.nanos == now.nanos + 1_000_000_000,
        set_to == machine@.old_deadline,
        action is PendingSend,
        final(starting)@ == (DriveView {
            phase: DrivePhase::Writing,
            old_deadline: old(starting)@.old_deadline,
        }),
{
}

/// Datagrams are sent one after the other as long as there is one and the socket
/// takes it, and each is taken out of the stream once it is sent. After that the
/// socket is read.
pub proof fn law_everything_is_sent_before_reading<Event, Error>(
    machine: &mut DriveMachine,
    reply: DriveReply<Event, Error>,
    step: DriveStep<Event, Error>,
)
    requires
        call_ensures(DriveMachine::resume::<Event, Error>, (machine, reply), step),
    ensures
        ({
            let before = old(machine)@;
            let after = final(machine)@;
            let reads = goes_on(
                before,
                after,
                step,
                DriveAction::Receive,
                DrivePhase::Reading { received: false },
            );
            &&& before.phase is Writing && reply == DriveReply::<Event, Error>::Pending(true)
                ==> goes_on(
                before,
                after,
                step,
                DriveAction::PollSendReady,
                DrivePhase::Readying,
            )
            &&& before.phase is Readying && reply == DriveReply::<Event, Error>::SendReady(true)
                ==> goes_on(before, after, step, DriveAction::TrySend, DrivePhase::Sending)
            &&& before.phase is Sending && reply == DriveReply::<Event, Error>::Sent(Ok(Some(())))
                ==> goes_on(before, after, step, DriveAction::ConsumeSend, DrivePhase::SendingMore)
            &&& before.phase is SendingMore && reply == DriveReply::<Event, Error>::Pending(true)
                ==> goes_on(before, after, step, DriveAction::TrySend, DrivePhase::Sending)
            &&& before.phase is Writing && reply == DriveReply::<Event, Error>::Pending(false)
                ==> reads
            &&& before.phase is Readying && reply == DriveReply::<Event, Error>::SendReady(false)
                ==> reads
            &&& before.phase is Sending && reply == DriveReply::<Event, Error>::Sent(Ok(None))
                ==> reads
            &&& before.phase is SendingMore && reply == DriveReply::<Event, Error>::Pending(false)
                ==> reads
            &&& before.phase is Sending ==> (reply matches DriveReply::Sent(Err(error)) ==> fails(
                before,
                after,
                step,
                error,
            ))
        }),
{
}

/// Each datagram that arrived is handed to the stream with its time, and then
/// the next one is asked for. Once none is left, sending starts over if there
/// was one, and otherwise the stream is asked for its deadline.
pub proof fn law_everything_is_read_before_waiting<Event, Error>(
    machine: &mut DriveMachine,
    received: bool,
    result: Result<Option<Instant>, Error>,
    step: DriveStep<Event, Error>,
)
    requires
        old(machine)@.phase == (DrivePhase::Reading { received }),
        call_ensures(
            DriveMachine::resume::<Event, Error>,
            (machine, DriveReply::Received(result)),
            step,
        ),
    ensures
        match result {
            Ok(Some(now)) => goes_on(
                old(machine)@,
                final(machine)@,
                step,
                DriveAction::HandleReceive(now),
                DrivePhase::Delivering,
            ),
            Ok(None) => if received {
                goes_on(
                    old(machine)@,
                    final(machine)@,
                    step,
                    DriveAction::PendingSend,
                    DrivePhase::Writing,
                )
            } else {
                goes_on(
                    old(machine)@,
                    final(machine)@,
                    step,
                    DriveAction::PollTimeout,
                    DrivePhase::Scheduling,
                )
            },
            Err(error) => fails(old(machine)@, final(machine)@, step, error),
        },
{
}

/// A datagram that was taken in is followed by the next one.
pub proof fn law_next_datagram_is_asked_for<Event, Error>(
    machine: &mut DriveMachine,
    result: Result<(), Error>,
    step: DriveStep<Event, Error>,
)
    requires
        old(machine)@.phase is Delivering,
        call_ensures(
            DriveMachine::resume::<Event, Error>,
            (machine, DriveReply::Delivered(result)),
            step,
        ),
    ensures
        match result {
            Ok(()) => goes_on(
                old(machine)@,
                final(machine)@,
                step,
                DriveAction::Receive,
                DrivePhase::Reading { received: true },
            ),
            Err(error) => fails(old(machine)@, final(machine)@, step, error),
        },
{
}

/// The timer is set to the deadline of the stream if it was set to another. A
/// stream without a deadline is asked for an event at once.
pub proof fn law_timer_is_set_to_the_deadline<Event, Error>(
    machine: &mut DriveMachine,
    deadline: Option<Instant>,
    step: DriveStep<Event, Error>,
)
    requires
        old(machine)@.phase is Scheduling,
        call_ensures(
            DriveMachine::resume::<Event, Error>,
            (machine, DriveReply::Deadline(deadline)),
            step,
        ),
    ensures
        match deadline {
            Some(deadline) => {
                &&& final(machine)@ == (DriveView {
                    phase: DrivePhase::Sleeping,
                    old_deadline: deadline,
                })
                &&& step == DriveStep::<Event, Error>::Do(
                    if deadline.nanos == old(machine)@.old_deadline.nanos {
                        DriveAction::PollSleep
                    } else {
                        DriveAction::ResetSleep(deadline)
                    },
                )
            },
            None => goes_on(
                old(machine)@,
                final(machine)@,
                step,
                DriveAction::PollEvent,
                DrivePhase::Reporting,
            ),
        },
{
}

/// When the timer has run out, the stream is told the time and sending starts
/// over; otherwise the stream is asked for an event, which is what the run comes
/// to, and the next run starts with sending.
pub proof fn law_run_ends_with_an_event<Event, Error>(
    machine: &mut DriveMachine,
    reply: DriveReply<Event, Error>,
    step: DriveStep<Event, Error>,
)
    requires
        call_ensures(DriveMachine::resume::<Event, Error>, (machine, reply), step),
    ensures
        old(machine)@.phase is Sleeping ==> (reply matches DriveReply::Sleep(over) ==> match over {
            Some(now) => goes_on(
                old(machine)@,
                final(machine)@,
                step,
                DriveAction::HandleTimeout(now),
                DrivePhase::TimingOut,
            ),
            None => goes_on(
                old(machine)@,
                final(machine)@,
                step,
                DriveAction::PollEvent,
                DrivePhase::Reporting,
            ),
        }),
        old(machine)@.phase is TimingOut ==> (reply matches DriveReply::TimedOut(result)
            ==> match result {
            Ok(()) => goes_on(
                old(machine)@,
                final(machine)@,
                step,
                DriveAction::PendingSend,
                DrivePhase::Writing,
            ),
            Err(error) => fails(old(machine)@, final(machine)@, step, error),
        }),
        old(machine)@.phase is Reporting ==> (reply matches DriveReply::Event(event) ==> {
            &&& step == DriveStep::<Event, Error>::Done(Ok(event))
            &&& final(machine)@ == (DriveView {
                phase: DrivePhase::Writing,
                old_deadline: old(machine)@.old_deadline,
            })
        }),
{
}

/// Whether a session asks the setup what it wants, with these parts.
pub open spec fn asks_setup<P: StreamParts>(step: ConnectStep<P>, parts: Parts<P>) -> bool {
    step == ConnectStep::Do(ConnectAction::PollOutput, Connecting::Polling(parts))
}

/// A session starts with asking the setup, with nothing set up.
pub proof fn law_session_starts_with_nothing<P: StreamParts>(step: ConnectStep<P>)
    requires
        call_ensures(Connecting::<P>::start, (), step),
    ensures
        step matches ConnectStep::Do(ConnectAction::PollOutput, Connecting::Polling(parts))
            && !parts.tcp_open && parts.audio is None && parts.video is None && parts.control is None
            && parts.foundation_mic is None,
{
}

/// What the setup wants of the TCP connection is done as it wants it, and what
/// has been set up stays.
pub proof fn law_setup_talks_over_tcp<P: StreamParts>(
    parts: Parts<P>,
    addr: SocketAddr,
    opening: ConnectStep<P>,
    data: Vec<u8>,
    writing: ConnectStep<P>,
    until: Instant,
    waiting: ConnectStep<P>,
    error: MoonlightStreamProtoError,
    failing: ConnectStep<P>,
)
    requires
        call_ensures(
            Connecting::<P>::resume,
            (
                Connecting::Polling(parts),
                ConnectReply::Output(Ok(SetupOutput::TcpConnect { addr })),
            ),
            opening,
        ),
        call_ensures(
            Connecting::<P>::resume,
            (
                Connecting::Polling(parts),
                ConnectReply::Output(Ok(SetupOutput::TcpWrite { data })),
            ),
            writing,
        ),
        call_ensures(
            Connecting::<P>::resume,
            (
                Connecting::Polling(parts),
                ConnectReply::Output(Ok(SetupOutput::Timeout(until))),
            ),
            waiting,
        ),
        call_ensures(
            Connecting::<P>::resume,
            (Connecting::Polling(parts), ConnectReply::Output(Err(error))),
            failing,
        ),
    ensures
        opening == ConnectStep::Do(ConnectAction::OpenTcp { addr }, Connecting::Opening(parts)),
        writing == ConnectStep::Do(ConnectAction::WriteTcp { data }, Connecting::Writing(parts)),
        waiting == ConnectStep::Do(ConnectAction::Wait { until }, Connecting::Waiting(parts)),
        failing == ConnectStep::<P>::Done(Err(MoonlightStreamError::Setup(error))),
{
}

/// A stream that the setup hands over is kept, and the setup is asked again.
pub proof fn law_streams_are_kept<P: StreamParts>(
    parts: Parts<P>,
    output: SetupOutput<P>,
    step: ConnectStep<P>,
)
    requires
        call_ensures(
            Connecting::<P>::resume,
            (Connecting::Polling(parts), ConnectReply::Output(Ok(output))),
            step,
        ),
    ensures
        output matches SetupOutput::StartAudioStream { config, audio_stream } ==> asks_setup(
            step,
            Parts { audio: Some((config, audio_stream)), ..parts },
        ),
        output matches SetupOutput::StartVideoStream { setup, video_stream } ==> asks_setup(
            step,
            Parts { video: Some((setup, video_stream)), ..parts },
        ),
        output matches SetupOutput::StartControlStream { control_stream } ==> asks_setup(
            step,
            Parts { control: Some(control_stream), ..parts },
        ),
        output matches SetupOutput::FoundationStartMic { mic_stream } ==> asks_setup(
            step,
            Parts { foundation_mic: Some(mic_stream), ..parts },
        ),
{
}

/// Once the setup is done, each stream that was handed over gets a socket, and
/// what the setup knows of the session is kept.
pub proof fn law_sockets_are_given_to_the_streams<P: StreamParts>(
    parts: Parts<P>,
    features: P::HostFeatures,
    audio: (P::AudioSetup, P::AudioStream),
    video: (P::VideoSetup, P::VideoStream),
    control: P::ControlStream,
    step: ConnectStep<P>,
)
    requires
        parts.audio == Some(audio),
        parts.video == Some(video),
        parts.control == Some(control),
        call_ensures(
            Connecting::<P>::resume,
            (
                Connecting::Polling(parts),
                ConnectReply::Output(Ok(SetupOutput::Connected { features })),
            ),
            step,
        ),
    ensures
        step matches ConnectStep::Do(
            ConnectAction::Bind(streams),
            Connecting::Binding(session),
        ) && {
            &&& streams.audio_stream == audio.1
            &&& streams.video_stream == video.1
            &&& streams.control_stream == control
            &&& streams.foundation_mic_stream == parts.foundation_mic
            &&& session.host_features == features
            &&& session.audio_setup == audio.0
            &&& session.video_setup == video.0
        },
{
}

/// What came of the TCP connection: that it is open is noted, that something was
/// written lets the setup go on, and an error is what opening the session comes
/// to.
pub proof fn law_tcp_is_noted<P: StreamParts>(
    parts: Parts<P>,
    opened: Result<(), io::Error>,
    opening: ConnectStep<P>,
    written: Result<(), io::Error>,
    writing: ConnectStep<P>,
)
    requires
        call_ensures(
            Connecting::<P>::resume,
            (Connecting::Opening(parts), ConnectReply::TcpOpened(opened)),
            opening,
        ),
        call_ensures(
            Connecting::<P>::resume,
            (Connecting::Writing(parts), ConnectReply::TcpWritten(written)),
            writing,
        ),
    ensures
        match opened {
            Ok(()) => asks_setup(opening, Parts { tcp_open: true, ..parts }),
            Err(error) => opening == ConnectStep::<P>::Done(Err(MoonlightStreamError::Io(error))),
        },
        match written {
            Ok(()) => asks_setup(writing, parts),
            Err(error) => writing == ConnectStep::<P>::Done(Err(MoonlightStreamError::Io(error))),
        },
{
}

/// The setup is told what came of waiting: the time, how much was read, or that
/// the host closed the connection if nothing was. Then it is asked again.
pub proof fn law_setup_is_told_what_came<P: StreamParts>(
    parts: Parts<P>,
    now: Instant,
    timing: ConnectStep<P>,
    read: Result<usize, io::Error>,
    reading: ConnectStep<P>,
    handled: Result<(), MoonlightStreamProtoError>,
    telling: ConnectStep<P>,
)
    requires
        call_ensures(
            Connecting::<P>::resume,
            (Connecting::Waiting(parts), ConnectReply::WaitedUntil { now }),
            timing,
        ),
        call_ensures(
            Connecting::<P>::resume,
            (Connecting::Waiting(parts), ConnectReply::Read { now, result: read }),
            reading,
        ),
        call_ensures(
            Connecting::<P>::resume,
            (Connecting::Informing(parts), ConnectReply::InputHandled(handled)),
            telling,
        ),
    ensures
        timing == ConnectStep::Do(
            ConnectAction::HandleInput(SetupInput::Timeout(now)),
            Connecting::Informing(parts),
        ),
        match read {
            Ok(len) => reading == ConnectStep::Do(
                ConnectAction::HandleInput(
                    if len > 0 {
                        SetupInput::TcpReceive { now, len }
                    } else {
                        SetupInput::TcpDisconnected(now)
                    },
                ),
                Connecting::Informing(parts),
            ),
            Err(error) => reading == ConnectStep::<P>::Done(Err(MoonlightStreamError::Io(error))),
        },
        match handled {
            Ok(()) => asks_setup(telling, parts),
            Err(error) => telling == ConnectStep::<P>::Done(
                Err(MoonlightStreamError::Setup(error)),
            ),
        },
{
}

/// Once the streams have sockets, the control stream has twenty seconds to
/// connect.
pub proof fn law_control_has_twenty_seconds<P: StreamParts>(
    session: Session<P>,
    now: Instant,
    result: Result<(), MoonlightStreamError>,
    step: ConnectStep<P>,
)
    requires
        now.can_add(20_000_000_000),
        call_ensures(
            Connecting::<P>::resume,
            (Connecting::Binding(session), ConnectReply::Bound { now, result }),
            step,
        ),
    ensures
        match result {
            Ok(()) => {
                &&& step matches ConnectStep::Do(
                    ConnectAction::DriveControl { until },
                    Connecting::AwaitingControl(kept, limit),
                )
                &&& until.nanos == now.nanos + 20_000_000_000
                &&& limit == until
                &&& kept == session
            },
            Err(error) => step == ConnectStep::<P>::Done(Err(error)),
        },
{
}

/// Once the control stream is connected, the first audio has five seconds to
/// arrive. Other events do not end or lengthen the wait, errors and the end of
/// the time do.
pub proof fn law_audio_has_five_seconds<P: StreamParts>(
    session: Session<P>,
    limit: Instant,
    now: Instant,
    result: Option<Result<ControlStreamEvent, MoonlightStreamError>>,
    step: ConnectStep<P>,
)
    requires
        now.can_add(5_000_000_000),
        call_ensures(
            Connecting::<P>::resume,
            (Connecting::AwaitingControl(session, limit), ConnectReply::Control { now, result }),
            step,
        ),
    ensures
        match result {
            Some(Ok(ControlStreamEvent::Connect)) => {
                &&& step matches ConnectStep::Do(
                    ConnectAction::DriveAudio { until },
                    Connecting::AwaitingAudio(kept),
                )
                &&& until.nanos == now.nanos + 5_000_000_000
                &&& kept == session
            },
            Some(Ok(_)) => step == ConnectStep::Do(
                ConnectAction::DriveControl { until: limit },
                Connecting::AwaitingControl(session, limit),
            ),
            Some(Err(error)) => step == ConnectStep::<P>::Done(Err(error)),
            None => step == ConnectStep::<P>::Done(Err(MoonlightStreamError::ConnectionTimeout)),
        },
{
}

/// The first audio opens the session; an error or the end of the time does not.
pub proof fn law_first_audio_opens_the_session<P: StreamParts>(
    session: Session<P>,
    result: Option<Result<AudioStreamEvent, MoonlightStreamError>>,
    step: ConnectStep<P>,
)
    requires
        call_ensures(
            Connecting::<P>::resume,
            (Connecting::AwaitingAudio(session), ConnectReply::Audio(result)),
            step,
        ),
    ensures
        step == ConnectStep::<P>::Done(
            match result {
                Some(Ok(_)) => Ok(session),
                Some(Err(error)) => Err(error),
                None => Err(MoonlightStreamError::ConnectionTimeout),
            },
        ),
{
}

/// Writing and waiting need a TCP connection, and a session needs an audio, a
/// video and a control stream; nothing else is needed.
pub proof fn law_missing_parts_are_told<P: StreamParts>(
    parts: Parts<P>,
    output: SetupOutput<P>,
    part: Option<MissingPart>,
)
    requires
        call_ensures(Parts::<P>::missing_part, (&parts, &output), part),
    ensures
        output is TcpWrite || output is Timeout ==> part == if parts.tcp_open {
            None
        } else {
            Some(MissingPart::TcpStream)
        },
        output is Connected ==> {
            &&& part == Some(MissingPart::AudioStream) <==> parts.audio is None
            &&& part == Some(MissingPart::VideoStream) <==> parts.audio is Some
                && parts.video is None
            &&& part == Some(MissingPart::ControlStream) <==> parts.audio is Some
                && parts.video is Some && parts.control is None
            &&& part is None <==> parts.audio is Some && parts.video is Some
                && parts.control is Some
        },
        !(output is TcpWrite || output is Timeout || output is Connected) ==> part is None,
{
}

/// What goes wrong with a part of a session is reported as that part's error.
pub proof fn law_errors_keep_their_source(
    io_error: io::Error,
    setup_error: MoonlightStreamProtoError,
    audio_error: AudioStreamError,
    video_error: VideoStreamError,
    control_error: ControlError,
    mic_error: FoundationMicStreamError,
    errors: Seq<MoonlightStreamError>,
)
    requires
        errors.len() == 6,
        call_ensures(
            <MoonlightStreamError as From<io::Error>>::from,
            (io_error,),
            errors[0],
        ),
        call_ensures(
            <MoonlightStreamError as From<MoonlightStreamProtoError>>::from,
            (setup_error,),
            errors[1],
        ),
        call_ensures(
            <MoonlightStreamError as From<AudioStreamError>>::from,
            (audio_error,),
            errors[2],
        ),
        call_ensures(
            <MoonlightStreamError as From<VideoStreamError>>::from,
            (video_error,),
            errors[3],
        ),
        call_ensures(
            <MoonlightStreamError as From<ControlError>>::from,
            (control_error,),
            errors[4],
        ),
        call_ensures(
            <MoonlightStreamError as From<FoundationMicStreamError>>::from,
            (mic_error,),
            errors[5],
        ),
    ensures
        errors[0] == MoonlightStreamError::Io(io_error),
        errors[1] == MoonlightStreamError::Setup(setup_error),
        errors[2] == MoonlightStreamError::Audio(audio_error),
        errors[3] == MoonlightStreamError::Video(video_error),
        errors[4] == MoonlightStreamError::Control(control_error),
        errors[5] == MoonlightStreamError::FoundationMic(mic_error),
{
}

/// What a stream of a session reports is reported as that stream's event.
pub proof fn law_events_keep_their_source(
    audio_event: AudioStreamEvent,
    video_event: VideoStreamEvent,
    control_event: ControlStreamEvent,
    events: Seq<MoonlightStreamEvent>,
)
    requires
        events.len() == 3,
        call_ensures(
            <MoonlightStreamEvent as From<AudioStreamEvent>>::from,
            (audio_event,),
            events[0],
        ),
        call_ensures(
            <MoonlightStreamEvent as From<VideoStreamEvent>>::from,
            (video_event,),
            events[1],
        ),
        call_ensures(
            <MoonlightStreamEvent as From<ControlStreamEvent>>::from,
            (control_event,),
            events[2],
        ),
    ensures
        events[0] == MoonlightStreamEvent::Audio(audio_event),
        events[1] == MoonlightStreamEvent::Video(video_event),
        events[2] == MoonlightStreamEvent::Control(control_event),
{
}

/// A frame of the microphone is taken only if it was sent.
pub proof fn law_microphone_frame_is_taken_if_sent(
    sent: Option<Result<(), FoundationMicStreamError>>,
    accepted: bool,
)
    requires
        call_ensures(microphone_accepted, (sent,), accepted),
    ensures
        accepted <==> sent is Some && sent->0 is Ok,
{
}

/// The sooner of two deadlines is one of them and not after the other.
pub proof fn law_sooner_deadline_comes_first(
    a: Option<Instant>,
    b: Option<Instant>,
    first: Option<Instant>,
)
    requires
        call_ensures(soonest, (a, b), first),
    ensures
        first is None <==> a is None && b is None,
        first matches Some(first) ==> a == Some(first) || b == Some(first),
        a matches Some(a) ==> first->0.nanos <= a.nanos,
        b matches Some(b) ==> first->0.nanos <= b.nanos,
{
}

/// Times are counted in nanoseconds: adding to one and taking the difference
/// undo each other, and an earlier time has not come yet.
pub proof fn law_times_are_counted_in_nanoseconds(
    nanos: i64,
    start: Instant,
    told: i64,
    length: u64,
    later: Instant,
    between: u64,
    back: u64,
    before: bool,
)
    requires
        length <= i64::MAX,
        start.can_add(length as int),
        call_ensures(Instant::from_nanos, (nanos,), start),
        call_ensures(Instant::as_nanos, (&start,), told),
        call_ensures(Instant::plus, (start, length), later),
        call_ensures(Instant::since, (later, start), between),
        call_ensures(Instant::since, (start, later), back),
        call_ensures(Instant::is_before, (start, later), before),
    ensures
        told == nanos,
        later.nanos == nanos + length,
        between == length,
        back == 0,
        before == (length > 0),
{
}

/// An address is made of the four parts of its name, the first being the most
/// significant.
pub proof fn law_addresses_are_made_of_their_parts(
    a: u8,
    b: u8,
    c: u8,
    d: u8,
    port: u16,
    addr: SocketAddr,
)
    requires
        call_ensures(SocketAddr::v4, (a, b, c, d, port), addr),
    ensures
        addr matches SocketAddr::V4 { ip, port: given } && ip == ((a * 256 + b) * 256 + c) * 256 + d
            && given == port,
{
}

} // verus!
