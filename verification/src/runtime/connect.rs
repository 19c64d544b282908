//! Opens a session: talks with the host over TCP until every stream is set up,
//! waits for the control stream to connect, and then for the first audio.

use std::io;

use vstd::prelude::*;

use crate::control::stream::ControlStreamEvent;
use crate::net::SocketAddr;
use crate::runtime::stream::{AudioStreamEvent, MoonlightStreamError, MoonlightStreamProtoError};
use crate::time::Instant;

verus! {

/// How long the control stream may take to connect.
pub const CONTROL_CONNECT_TIMEOUT: u64 = 20_000_000_000;

/// How long the first audio may take to arrive.
pub const AUDIO_DISCOVERY_TIMEOUT: u64 = 5_000_000_000;

/// What a session is made of.
pub trait StreamParts: Sized {
    type HostFeatures;

    type AudioSetup;

    type AudioStream;

    type VideoSetup;

    type VideoStream;

    type ControlStream;

    type MicStream;
}

/// What the setup of a session wants next.
pub enum SetupOutput<P: StreamParts> {
    TcpConnect { addr: SocketAddr },
    TcpWrite { data: Vec<u8> },
    /// Wait until data arrives, but no longer than this.
    Timeout(Instant),
    StartAudioStream { config: P::AudioSetup, audio_stream: P::AudioStream },
    StartVideoStream { setup: P::VideoSetup, video_stream: P::VideoStream },
    StartControlStream { control_stream: P::ControlStream },
    FoundationStartMic { mic_stream: P::MicStream },
    Connected { features: P::HostFeatures },
}

/// What the setup of a session has to be told.
#[derive(Debug, Clone, Copy, PartialEq, Eq, Structural)]
#[allow(inconsistent_fields)]
pub enum SetupInput {
    Timeout(Instant),
    TcpDisconnected(Instant),
    /// The first `len` bytes of the read buffer arrived.
    TcpReceive { now: Instant, len: usize },
}

/// What has been set up so far.
pub struct Parts<P: StreamParts> {
    /// Whether a TCP connection was opened.
    pub tcp_open: bool,
    pub audio: Option<(P::AudioSetup, P::AudioStream)>,
    pub video: Option<(P::VideoSetup, P::VideoStream)>,
    pub control: Option<P::ControlStream>,
    pub foundation_mic: Option<P::MicStream>,
}

/// What is known about a session whose streams are running.
pub struct Session<P: StreamParts> {
    pub host_features: P::HostFeatures,
    pub audio_setup: P::AudioSetup,
    pub video_setup: P::VideoSetup,
}

/// The streams of a session.
pub struct Streams<P: StreamParts> {
    pub audio_stream: P::AudioStream,
    pub video_stream: P::VideoStream,
    pub control_stream: P::ControlStream,
    pub foundation_mic_stream: Option<P::MicStream>,
}

/// Something that is to be done to open a session.
pub enum ConnectAction<P: StreamParts> {
    /// Ask the setup what it wants.
    PollOutput,
    /// Open a TCP connection.
    OpenTcp { addr: SocketAddr },
    /// Write to the TCP connection.
    WriteTcp { data: Vec<u8> },
    /// Read from the TCP connection, but no longer than until this time.
    Wait { until: Instant },
    /// Tell the setup something.
    HandleInput(SetupInput),
    /// Give each stream a socket.
    Bind(Streams<P>),
    /// Run the control stream until it reports something, but no longer than
    /// until this time.
    DriveControl { until: Instant },
    /// Run the audio stream until it reports something, but no longer than
    /// until this time.
    DriveAudio { until: Instant },
}

/// What came of a [`ConnectAction`].
#[allow(inconsistent_fields)]
pub enum ConnectReply<P: StreamParts> {
    Output(Result<SetupOutput<P>, MoonlightStreamProtoError>),
    TcpOpened(Result<(), io::Error>),
    TcpWritten(Result<(), io::Error>),
    /// The time came.
    WaitedUntil { now: Instant },
    /// So many bytes were read; none if the host closed the connection.
    Read { now: Instant, result: Result<usize, io::Error> },
    InputHandled(Result<(), MoonlightStreamProtoError>),
    Bound { now: Instant, result: Result<(), MoonlightStreamError> },
    /// What the control stream reported, or [None] if the time came.
    Control { now: Instant, result: Option<Result<ControlStreamEvent, MoonlightStreamError>> },
    /// What the audio stream reported, or [None] if the time came.
    Audio(Option<Result<AudioStreamEvent, MoonlightStreamError>>),
}

/// A session that is being opened, by what it waits for.
pub enum Connecting<P: StreamParts> {
    /// What the setup wants.
    Polling(Parts<P>),
    /// The TCP connection.
    Opening(Parts<P>),
    /// The write to the TCP connection.
    Writing(Parts<P>),
    /// Data, or the time.
    Waiting(Parts<P>),
    /// The setup to be told something.
    Informing(Parts<P>),
    /// The sockets.
    Binding(Session<P>),
    /// The control stream to connect.
    AwaitingControl(Session<P>, Instant),
    /// The first audio.
    AwaitingAudio(Session<P>),
}

/// What comes next.
pub enum ConnectStep<P: StreamParts> {
    Do(ConnectAction<P>, Connecting<P>),
    Done(Result<Session<P>, MoonlightStreamError>),
}

/// A part without which a session cannot go on.
#[derive(Debug, Clone, Copy, PartialEq, Eq, Structural)]
pub enum MissingPart {
    TcpStream,
    AudioStream,
    VideoStream,
    ControlStream,
}

impl<P: StreamParts> Parts<P> {
    /// Nothing yet.
    pub open spec fn none() -> Parts<P> {
        Parts { tcp_open: false, audio: None, video: None, control: None, foundation_mic: None }
    }

    /// The part that what the setup wants cannot do without and that is not
    /// there, if there is such a part.
    pub open spec fn missing(self, output: SetupOutput<P>) -> Option<MissingPart> {
        match output {
            SetupOutput::TcpWrite { .. } | SetupOutput::Timeout(_) => if self.tcp_open {
                None
            } else {
                Some(MissingPart::TcpStream)
            },
            SetupOutput::Connected { .. } => if self.audio is None {
                Some(MissingPart::AudioStream)
            } else if self.video is None {
                Some(MissingPart::VideoStream)
            } else if self.control is None {
                Some(MissingPart::ControlStream)
            } else {
                None
            },
            _ => None,
        }
    }

    /// The part that what the setup wants cannot do without and that is not
    /// there, if there is such a part.
    pub fn missing_part(&self, output: &SetupOutput<P>) -> (part: Option<MissingPart>)
        ensures
            part == self.missing(*output),
    {
        match output {
            SetupOutput::TcpWrite { .. } | SetupOutput::Timeout(_) => {
                if self.tcp_open {
                    None
                } else {
                    Some(MissingPart::TcpStream)
                }
            },
            SetupOutput::Connected { .. } => {
                if self.audio.is_none() {
                    Some(MissingPart::AudioStream)
                } else if self.video.is_none() {
                    Some(MissingPart::VideoStream)
                } else if self.control.is_none() {
                    Some(MissingPart::ControlStream)
                } else {
                    None
                }
            },
            _ => None,
        }
    }
}

/// Whether an answer is one to what a session waits for: the setup wants
/// nothing that cannot be done, and deadlines are instants.
pub open spec fn answers_connect<P: StreamParts>(
    connecting: Connecting<P>,
    reply: ConnectReply<P>,
) -> bool {
    match connecting {
        Connecting::Polling(parts) => {
            &&& reply is Output
            &&& reply matches ConnectReply::Output(Ok(output)) ==> parts.missing(output) is None
        },
        Connecting::Opening(_) => reply is TcpOpened,
        Connecting::Writing(_) => reply is TcpWritten,
        Connecting::Waiting(_) => reply is WaitedUntil || reply is Read,
        Connecting::Informing(_) => reply is InputHandled,
        Connecting::Binding(_) => {
            &&& reply is Bound
            &&& reply matches ConnectReply::Bound { now, .. } ==> now.can_add(
                CONTROL_CONNECT_TIMEOUT as int,
            )
        },
        Connecting::AwaitingControl(_, _) => {
            &&& reply is Control
            &&& reply matches ConnectReply::Control { now, .. } ==> now.can_add(
                AUDIO_DISCOVERY_TIMEOUT as int,
            )
        },
        Connecting::AwaitingAudio(_) => reply is Audio,
    }
}

/// Asks the setup what it wants.
pub open spec fn poll_output<P: StreamParts>(parts: Parts<P>) -> ConnectStep<P> {
    ConnectStep::Do(ConnectAction::PollOutput, Connecting::Polling(parts))
}

/// How a session goes on with what the setup wants. A stream that the setup
/// hands over again takes the place of the one before.
pub open spec fn after_output<P: StreamParts>(
    parts: Parts<P>,
    output: SetupOutput<P>,
) -> ConnectStep<P> {
    match output {
        SetupOutput::TcpConnect { addr } => ConnectStep::Do(
            ConnectAction::OpenTcp { addr },
            Connecting::Opening(parts),
        ),
        SetupOutput::TcpWrite { data } => ConnectStep::Do(
            ConnectAction::WriteTcp { data },
            Connecting::Writing(parts),
        ),
        SetupOutput::Timeout(until) => ConnectStep::Do(
            ConnectAction::Wait { until },
            Connecting::Waiting(parts),
        ),
        SetupOutput::StartAudioStream { config, audio_stream } => poll_output(
            Parts { audio: Some((config, audio_stream)), ..parts },
        ),
        SetupOutput::StartVideoStream { setup, video_stream } => poll_output(
            Parts { video: Some((setup, video_stream)), ..parts },
        ),
        SetupOutput::StartControlStream { control_stream } => poll_output(
            Parts { control: Some(control_stream), ..parts },
        ),
        SetupOutput::FoundationStartMic { mic_stream } => poll_output(
            Parts { foundation_mic: Some(mic_stream), ..parts },
        ),
        SetupOutput::Connected { features } => ConnectStep::Do(
            ConnectAction::Bind(
                Streams {
                    audio_stream: (parts.audio->0).1,
                    video_stream: (parts.video->0).1,
                    control_stream: parts.control->0,
                    foundation_mic_stream: parts.foundation_mic,
                },
            ),
            Connecting::Binding(
                Session {
                    host_features: features,
                    audio_setup: (parts.audio->0).0,
                    video_setup: (parts.video->0).0,
                },
            ),
        ),
    }
}

/// What the setup is told of a read.
pub open spec fn input_of_read(now: Instant, len: usize) -> SetupInput {
    if len == 0 {
        SetupInput::TcpDisconnected(now)
    } else {
        SetupInput::TcpReceive { now, len }
    }
}

/// How a session goes on after an answer.
pub open spec fn connected<P: StreamParts>(
    connecting: Connecting<P>,
    reply: ConnectReply<P>,
) -> ConnectStep<P> {
    match (connecting, reply) {
        (Connecting::Polling(parts), ConnectReply::Output(result)) => match result {
            Ok(output) => after_output(parts, output),
            Err(error) => ConnectStep::Done(Err(MoonlightStreamError::Setup(error))),
        },
        (Connecting::Opening(parts), ConnectReply::TcpOpened(result)) => match result {
            Ok(()) => poll_output(Parts { tcp_open: true, ..parts }),
            Err(error) => ConnectStep::Done(Err(MoonlightStreamError::Io(error))),
        },
        (Connecting::Writing(parts), ConnectReply::TcpWritten(result)) => match result {
            Ok(()) => poll_output(parts),
            Err(error) => ConnectStep::Done(Err(MoonlightStreamError::Io(error))),
        },
        (Connecting::Waiting(parts), ConnectReply::WaitedUntil { now }) => ConnectStep::Do(
            ConnectAction::HandleInput(SetupInput::Timeout(now)),
            Connecting::Informing(parts),
        ),
        (Connecting::Waiting(parts), ConnectReply::Read { now, result }) => match result {
            Ok(len) => ConnectStep::Do(
                ConnectAction::HandleInput(input_of_read(now, len)),
                Connecting::Informing(parts),
            ),
            Err(error) => ConnectStep::Done(Err(MoonlightStreamError::Io(error))),
        },
        (Connecting::Informing(parts), ConnectReply::InputHandled(result)) => match result {
            Ok(()) => poll_output(parts),
            Err(error) => ConnectStep::Done(Err(MoonlightStreamError::Setup(error))),
        },
        (Connecting::Binding(session), ConnectReply::Bound { now, result }) => match result {
            Ok(()) => {
                let until = Instant { nanos: (now.nanos + CONTROL_CONNECT_TIMEOUT) as i64 };
                ConnectStep::Do(
                    ConnectAction::DriveControl { until },
                    Connecting::AwaitingControl(session, until),
                )
            },
            Err(error) => ConnectStep::Done(Err(error)),
        },
        (
            Connecting::AwaitingControl(session, until),
            ConnectReply::Control { now, result },
        ) => match result {
            None => ConnectStep::Done(Err(MoonlightStreamError::ConnectionTimeout)),
            Some(Err(error)) => ConnectStep::Done(Err(error)),
            Some(Ok(ControlStreamEvent::Connect)) => ConnectStep::Do(
                ConnectAction::DriveAudio {
                    until: Instant { nanos: (now.nanos + AUDIO_DISCOVERY_TIMEOUT) as i64 },
                },
                Connecting::AwaitingAudio(session),
            ),
            Some(Ok(_)) => ConnectStep::Do(
                ConnectAction::DriveControl { until },
                Connecting::AwaitingControl(session, until),
            ),
        },
        (Connecting::AwaitingAudio(session), ConnectReply::Audio(result)) => match result {
            None => ConnectStep::Done(Err(MoonlightStreamError::ConnectionTimeout)),
            Some(Err(error)) => ConnectStep::Done(Err(error)),
            Some(Ok(_)) => ConnectStep::Done(Ok(session)),
        },
        _ => ConnectStep::Done(Err(MoonlightStreamError::Closed)),
    }
}

impl<P: StreamParts> Connecting<P> {
    /// A session of which nothing is set up.
    pub fn start() -> (step: ConnectStep<P>)
        ensures
            step == poll_output(Parts::<P>::none()),
    {
        poll(Parts { tcp_open: false, audio: None, video: None, control: None, foundation_mic: None })
    }

    /// Goes on after an answer.
    ///
    /// Apollo/Sunshine's recvThread uses one mutable sender endpoint for
    /// outstanding audio AND video async receives. Concurrent initial pings can
    /// bind one stream to the other stream's UDP port forever. So audio
    /// discovery is completed before the video stream is run for the first
    /// time: a session is open only after actual audio arrived.
    pub fn resume(self, reply: ConnectReply<P>) -> (step: ConnectStep<P>)
        requires
            answers_connect(self, reply),
        ensures
            step == connected(self, reply),
    {
        match (self, reply) {
            (Connecting::Polling(parts), ConnectReply::Output(result)) => match result {
                Ok(output) => handle_output(parts, output),
                Err(error) => ConnectStep::Done(Err(MoonlightStreamError::from(error))),
            },
            (Connecting::Opening(parts), ConnectReply::TcpOpened(result)) => match result {
                Ok(()) => poll(Parts { tcp_open: true, ..parts }),
                Err(error) => ConnectStep::Done(Err(MoonlightStreamError::from(error))),
            },
            (Connecting::Writing(parts), ConnectReply::TcpWritten(result)) => match result {
                Ok(()) => poll(parts),
                Err(error) => ConnectStep::Done(Err(MoonlightStreamError::from(error))),
            },
            (Connecting::Waiting(parts), ConnectReply::WaitedUntil { now }) => ConnectStep::Do(
                ConnectAction::HandleInput(SetupInput::Timeout(now)),
                Connecting::Informing(parts),
            ),
            (Connecting::Waiting(parts), ConnectReply::Read { now, result }) => match result {
                Ok(len) => {
                    let input = if len == 0 {
                        SetupInput::TcpDisconnected(now)
                    } else {
                        SetupInput::TcpReceive { now, len }
                    };
                    ConnectStep::Do(
                        ConnectAction::HandleInput(input),
                        Connecting::Informing(parts),
                    )
                },
                Err(error) => ConnectStep::Done(Err(MoonlightStreamError::from(error))),
            },
            (Connecting::Informing(parts), ConnectReply::InputHandled(result)) => match result {
                Ok(()) => poll(parts),
                Err(error) => ConnectStep::Done(Err(MoonlightStreamError::from(error))),
            },
            (Connecting::Binding(session), ConnectReply::Bound { now, result }) => match result {
                Ok(()) => {
                    let until = now.plus(CONTROL_CONNECT_TIMEOUT);
                    ConnectStep::Do(
                        ConnectAction::DriveControl { until },
                        Connecting::AwaitingControl(session, until),
                    )
                },
                Err(error) => ConnectStep::Done(Err(error)),
            },
            (
                Connecting::AwaitingControl(session, until),
                ConnectReply::Control { now, result },
            ) => match result {
                None => ConnectStep::Done(Err(MoonlightStreamError::ConnectionTimeout)),
                Some(Err(error)) => ConnectStep::Done(Err(error)),
                Some(Ok(ControlStreamEvent::Connect)) => ConnectStep::Do(
                    ConnectAction::DriveAudio { until: now.plus(AUDIO_DISCOVERY_TIMEOUT) },
                    Connecting::AwaitingAudio(session),
                ),
                Some(Ok(_)) => ConnectStep::Do(
                    ConnectAction::DriveControl { until },
                    Connecting::AwaitingControl(session, until),
                ),
            },
            (Connecting::AwaitingAudio(session), ConnectReply::Audio(result)) => match result {
                None => ConnectStep::Done(Err(MoonlightStreamError::ConnectionTimeout)),
                Some(Err(error)) => ConnectStep::Done(Err(error)),
                Some(Ok(_)) => ConnectStep::Done(Ok(session)),
            },
            _ => ConnectStep::Done(Err(MoonlightStreamError::Closed)),
        }
    }
}

fn poll<P: StreamParts>(parts: Parts<P>) -> (step: ConnectStep<P>)
    ensures
        step == poll_output(parts),
{
    ConnectStep::Do(ConnectAction::PollOutput, Connecting::Polling(parts))
}

/// Does what the setup wants.
fn handle_output<P: StreamParts>(parts: Parts<P>, output: SetupOutput<P>) -> (step: ConnectStep<P>)
    requires
        parts.missing(output) is None,
    ensures
        step == after_output(parts, output),
{
    match output {
        SetupOutput::TcpConnect { addr } => ConnectStep::Do(
            ConnectAction::OpenTcp { addr },
            Connecting::Opening(parts),
        ),
        SetupOutput::TcpWrite { data } => ConnectStep::Do(
            ConnectAction::WriteTcp { data },
            Connecting::Writing(parts),
        ),
        SetupOutput::Timeout(until) => ConnectStep::Do(
            ConnectAction::Wait { until },
            Connecting::Waiting(parts),
        ),
        SetupOutput::StartAudioStream { config, audio_stream } => poll(
            Parts { audio: Some((config, audio_stream)), ..parts },
        ),
        SetupOutput::StartVideoStream { setup, video_stream } => poll(
            Parts { video: Some((setup, video_stream)), ..parts },
        ),
        SetupOutput::StartControlStream { control_stream } => poll(
            Parts { control: Some(control_stream), ..parts },
        ),
        SetupOutput::FoundationStartMic { mic_stream } => poll(
            Parts { foundation_mic: Some(mic_stream), ..parts },
        ),
        SetupOutput::Connected { features } => {
            let (audio_setup, audio_stream) = parts.audio.unwrap();
            let (video_setup, video_stream) = parts.video.unwrap();
            ConnectStep::Do(
                ConnectAction::Bind(
                    Streams {
                        audio_stream,
                        video_stream,
                        control_stream: parts.control.unwrap(),
                        foundation_mic_stream: parts.foundation_mic,
                    },
                ),
                Connecting::Binding(Session { host_features: features, audio_setup, video_setup }),
            )
        },
    }
}

} // verus!
