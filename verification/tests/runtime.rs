use std::io;

use moonlight_stream::audio::depayloader::AudioFrame;
use moonlight_stream::audio::model::AudioDepayloaderError;
use moonlight_stream::control::host::ControlError;
use moonlight_stream::control::stream::ControlStreamEvent;
use moonlight_stream::net::SocketAddr;
use moonlight_stream::runtime::connect::{
    ConnectAction, ConnectReply, ConnectStep, Connecting, MissingPart, Parts, Session, SetupInput,
    SetupOutput, StreamParts,
};
use moonlight_stream::runtime::driver::{DriveAction, DriveMachine, DriveReply, DriveStep};
use moonlight_stream::runtime::stream::{
    microphone_accepted, AudioStreamError, AudioStreamEvent, FoundationMicStreamError,
    MoonlightStreamError, MoonlightStreamEvent, MoonlightStreamProtoError,
};
use moonlight_stream::time::{soonest, Instant};
use moonlight_stream::video::stream::{VideoDepayloaderError, VideoStreamError, VideoStreamEvent};

fn at(nanos: i64) -> Instant {
    Instant::from_nanos(nanos)
}

#[test]
fn instants_and_deadlines() {
    assert_eq!(at(3).plus(4), at(7));
    assert_eq!(at(-5).plus(4), at(-1));
    assert_eq!(at(9).since(at(4)), 5);
    assert_eq!(at(4).since(at(9)), 0);
    assert!(at(4).is_before(at(5)));
    assert!(!at(5).is_before(at(5)));
    assert_eq!(soonest(None, None), None);
    assert_eq!(soonest(Some(at(2)), None), Some(at(2)));
    assert_eq!(soonest(None, Some(at(2))), Some(at(2)));
    assert_eq!(soonest(Some(at(3)), Some(at(2))), Some(at(2)));
}

/// Runs a driver through answers, and checks what it does.
fn play(
    machine: &mut DriveMachine,
    script: Vec<(DriveAction, DriveReply<u8, u16>)>,
) -> Result<Option<u8>, u16> {
    let mut step = DriveStep::Do(machine.start());
    for (expected, reply) in script {
        match step {
            DriveStep::Do(action) => {
                assert_eq!(action, expected);
                step = machine.resume(reply);
            }
            DriveStep::Done(result) => panic!("over with {result:?} before {expected:?}"),
        }
    }
    match step {
        DriveStep::Do(action) => panic!("{action:?} is not in the script"),
        DriveStep::Done(result) => result,
    }
}

#[test]
fn a_driver_sends_reads_waits_and_reports() {
    let mut machine = DriveMachine::new(Some(at(20)), at(0));
    assert_eq!(machine.deadline(), at(20));
    let result = play(
        &mut machine,
        vec![
            (DriveAction::PendingSend, DriveReply::Pending(true)),
            (DriveAction::PollSendReady, DriveReply::SendReady(true)),
            (DriveAction::TrySend, DriveReply::Sent(Ok(Some(())))),
            (DriveAction::ConsumeSend, DriveReply::Pending(true)),
            (DriveAction::TrySend, DriveReply::Sent(Ok(Some(())))),
            (DriveAction::ConsumeSend, DriveReply::Pending(false)),
            (DriveAction::Receive, DriveReply::Received(Ok(Some(at(8))))),
            (DriveAction::HandleReceive(at(8)), DriveReply::Delivered(Ok(()))),
            (DriveAction::Receive, DriveReply::Received(Ok(None))),
            // something arrived, so there may be something to send
            (DriveAction::PendingSend, DriveReply::Pending(false)),
            (DriveAction::Receive, DriveReply::Received(Ok(None))),
            (DriveAction::PollTimeout, DriveReply::Deadline(Some(at(20)))),
            // the deadline is the one that the timer is set to
            (DriveAction::PollSleep, DriveReply::Sleep(Some(at(21)))),
            (DriveAction::HandleTimeout(at(21)), DriveReply::TimedOut(Ok(()))),
            (DriveAction::PendingSend, DriveReply::Pending(true)),
            (DriveAction::PollSendReady, DriveReply::SendReady(false)),
            (DriveAction::Receive, DriveReply::Received(Ok(None))),
            (DriveAction::PollTimeout, DriveReply::Deadline(Some(at(40)))),
            (DriveAction::ResetSleep(at(40)), DriveReply::Sleep(None)),
            (DriveAction::PollEvent, DriveReply::Event(Some(7))),
        ],
    );
    assert_eq!(result, Ok(Some(7)));
    assert_eq!(machine.deadline(), at(40));
    let result = play(
        &mut machine,
        vec![
            (DriveAction::PendingSend, DriveReply::Pending(false)),
            (DriveAction::Receive, DriveReply::Received(Ok(None))),
            (DriveAction::PollTimeout, DriveReply::Deadline(None)),
            (DriveAction::PollEvent, DriveReply::Event(None)),
        ],
    );
    assert_eq!(result, Ok(None));
}

#[test]
fn a_socket_that_is_full_is_no_error() {
    let mut machine = DriveMachine::new(None, at(5));
    assert_eq!(machine.deadline(), at(1_000_000_005));
    let result = play(
        &mut machine,
        vec![
            (DriveAction::PendingSend, DriveReply::Pending(true)),
            (DriveAction::PollSendReady, DriveReply::SendReady(true)),
            (DriveAction::TrySend, DriveReply::Sent(Ok(None))),
            (DriveAction::Receive, DriveReply::Received(Ok(None))),
            (DriveAction::PollTimeout, DriveReply::Deadline(None)),
            (DriveAction::PollEvent, DriveReply::Event(None)),
        ],
    );
    assert_eq!(result, Ok(None));
}

#[test]
fn errors_end_a_run() {
    let mut machine = DriveMachine::new(Some(at(20)), at(0));
    let to_send = || {
        vec![
            (DriveAction::PendingSend, DriveReply::Pending(true)),
            (DriveAction::PollSendReady, DriveReply::SendReady(true)),
        ]
    };
    let to_read = || vec![(DriveAction::PendingSend, DriveReply::Pending(false))];
    let mut script = to_send();
    script.push((DriveAction::TrySend, DriveReply::Sent(Err(1))));
    assert_eq!(play(&mut machine, script), Err(1));
    let mut script = to_read();
    script.push((DriveAction::Receive, DriveReply::Received(Err(2))));
    assert_eq!(play(&mut machine, script), Err(2));
    let mut script = to_read();
    script.push((DriveAction::Receive, DriveReply::Received(Ok(Some(at(8))))));
    script.push((DriveAction::HandleReceive(at(8)), DriveReply::Delivered(Err(3))));
    assert_eq!(play(&mut machine, script), Err(3));
    let mut script = to_read();
    script.push((DriveAction::Receive, DriveReply::Received(Ok(None))));
    script.push((DriveAction::PollTimeout, DriveReply::Deadline(Some(at(1)))));
    script.push((DriveAction::ResetSleep(at(1)), DriveReply::Sleep(Some(at(21)))));
    script.push((DriveAction::HandleTimeout(at(21)), DriveReply::TimedOut(Err(4))));
    assert_eq!(play(&mut machine, script), Err(4));
}

struct TestParts;

impl StreamParts for TestParts {
    type HostFeatures = u8;
    type AudioSetup = u16;
    type AudioStream = &'static str;
    type VideoSetup = u32;
    type VideoStream = &'static str;
    type ControlStream = &'static str;
    type MicStream = &'static str;
}

fn resume(step: ConnectStep<TestParts>, reply: ConnectReply<TestParts>) -> ConnectStep<TestParts> {
    match step {
        ConnectStep::Do(_, connecting) => connecting.resume(reply),
        ConnectStep::Done(_) => panic!("the session is over"),
    }
}

fn output(step: ConnectStep<TestParts>, output: SetupOutput<TestParts>) -> ConnectStep<TestParts> {
    resume(step, ConnectReply::Output(Ok(output)))
}

/// A session up to the point where its streams have sockets.
fn bound(now: Instant) -> ConnectStep<TestParts> {
    let mut step = Connecting::<TestParts>::start();
    assert!(matches!(
        &step,
        ConnectStep::Do(ConnectAction::PollOutput, Connecting::Polling(_))
    ));
    let host = SocketAddr::v4(10, 0, 0, 1, 48010);
    step = output(step, SetupOutput::TcpConnect { addr: host });
    assert!(matches!(
        &step,
        ConnectStep::Do(ConnectAction::OpenTcp { addr }, _) if *addr == host
    ));
    step = resume(step, ConnectReply::TcpOpened(Ok(())));
    step = output(step, SetupOutput::TcpWrite { data: vec![1, 2] });
    assert!(matches!(
        &step,
        ConnectStep::Do(ConnectAction::WriteTcp { data }, _) if *data == vec![1, 2]
    ));
    step = resume(step, ConnectReply::TcpWritten(Ok(())));
    step = output(step, SetupOutput::Timeout(at(9)));
    assert!(matches!(
        &step,
        ConnectStep::Do(ConnectAction::Wait { until }, _) if *until == at(9)
    ));
    step = resume(
        step,
        ConnectReply::Read {
            now: at(1),
            result: Ok(5),
        },
    );
    assert!(matches!(
        &step,
        ConnectStep::Do(ConnectAction::HandleInput(input), _)
            if *input == SetupInput::TcpReceive { now: at(1), len: 5 }
    ));
    step = resume(step, ConnectReply::InputHandled(Ok(())));
    step = output(step, SetupOutput::Timeout(at(9)));
    step = resume(
        step,
        ConnectReply::Read {
            now: at(2),
            result: Ok(0),
        },
    );
    assert!(matches!(
        &step,
        ConnectStep::Do(ConnectAction::HandleInput(input), _)
            if *input == SetupInput::TcpDisconnected(at(2))
    ));
    step = resume(step, ConnectReply::InputHandled(Ok(())));
    step = output(step, SetupOutput::Timeout(at(9)));
    step = resume(step, ConnectReply::WaitedUntil { now: at(9) });
    assert!(matches!(
        &step,
        ConnectStep::Do(ConnectAction::HandleInput(input), _)
            if *input == SetupInput::Timeout(at(9))
    ));
    step = resume(step, ConnectReply::InputHandled(Ok(())));
    step = output(
        step,
        SetupOutput::StartAudioStream {
            config: 1,
            audio_stream: "first audio",
        },
    );
    step = output(
        step,
        SetupOutput::StartAudioStream {
            config: 2,
            audio_stream: "audio",
        },
    );
    step = output(
        step,
        SetupOutput::StartVideoStream {
            setup: 3,
            video_stream: "video",
        },
    );
    step = output(
        step,
        SetupOutput::StartControlStream {
            control_stream: "control",
        },
    );
    step = output(
        step,
        SetupOutput::FoundationStartMic { mic_stream: "mic" },
    );
    step = output(step, SetupOutput::Connected { features: 4 });
    match &step {
        ConnectStep::Do(ConnectAction::Bind(streams), _) => {
            assert_eq!(streams.audio_stream, "audio");
            assert_eq!(streams.video_stream, "video");
            assert_eq!(streams.control_stream, "control");
            assert_eq!(streams.foundation_mic_stream, Some("mic"));
        }
        _ => panic!("everything is set up"),
    }
    resume(
        step,
        ConnectReply::Bound {
            now,
            result: Ok(()),
        },
    )
}

fn frame() -> AudioStreamEvent {
    AudioStreamEvent::OnFrame(AudioFrame {
        timestamp: 0,
        buffer: vec![1],
    })
}

#[test]
fn a_session_opens_after_control_and_audio() {
    let mut step = bound(at(100));
    assert!(matches!(
        &step,
        ConnectStep::Do(ConnectAction::DriveControl { until }, _) if *until == at(20_000_000_100)
    ));
    // other events do not make the wait longer
    step = resume(
        step,
        ConnectReply::Control {
            now: at(200),
            result: Some(Ok(ControlStreamEvent::Disconnect)),
        },
    );
    assert!(matches!(
        &step,
        ConnectStep::Do(ConnectAction::DriveControl { until }, _) if *until == at(20_000_000_100)
    ));
    step = resume(
        step,
        ConnectReply::Control {
            now: at(300),
            result: Some(Ok(ControlStreamEvent::Connect)),
        },
    );
    assert!(matches!(
        &step,
        ConnectStep::Do(ConnectAction::DriveAudio { until }, _) if *until == at(5_000_000_300)
    ));
    step = resume(step, ConnectReply::Audio(Some(Ok(frame()))));
    match step {
        ConnectStep::Done(Ok(Session {
            host_features,
            audio_setup,
            video_setup,
        })) => assert_eq!((host_features, audio_setup, video_setup), (4, 2, 3)),
        _ => panic!("the session is open"),
    }
}

#[test]
fn a_host_that_is_silent_times_out() {
    let step = resume(
        bound(at(0)),
        ConnectReply::Control {
            now: at(20_000_000_000),
            result: None,
        },
    );
    assert!(matches!(
        step,
        ConnectStep::Done(Err(MoonlightStreamError::ConnectionTimeout))
    ));
    let step = resume(
        bound(at(0)),
        ConnectReply::Control {
            now: at(1),
            result: Some(Ok(ControlStreamEvent::Connect)),
        },
    );
    let step = resume(step, ConnectReply::Audio(None));
    assert!(matches!(
        step,
        ConnectStep::Done(Err(MoonlightStreamError::ConnectionTimeout))
    ));
}

#[test]
fn errors_end_the_opening_of_a_session() {
    let fault = || io::Error::from(io::ErrorKind::ConnectionRefused);
    let refused = |step: ConnectStep<TestParts>| {
        assert!(matches!(
            step,
            ConnectStep::Done(Err(MoonlightStreamError::Io(error)))
                if error.kind() == io::ErrorKind::ConnectionRefused
        ));
    };
    let step = Connecting::<TestParts>::start();
    let step = resume(
        step,
        ConnectReply::Output(Err(MoonlightStreamProtoError {
            message: "no".to_string(),
        })),
    );
    assert!(matches!(
        step,
        ConnectStep::Done(Err(MoonlightStreamError::Setup(error))) if error.message == "no"
    ));
    let host = SocketAddr::v4(10, 0, 0, 1, 48010);
    let opening = || {
        output(
            Connecting::<TestParts>::start(),
            SetupOutput::TcpConnect { addr: host },
        )
    };
    refused(resume(opening(), ConnectReply::TcpOpened(Err(fault()))));
    let open = || resume(opening(), ConnectReply::TcpOpened(Ok(())));
    let step = output(open(), SetupOutput::TcpWrite { data: vec![] });
    refused(resume(step, ConnectReply::TcpWritten(Err(fault()))));
    let step = output(open(), SetupOutput::Timeout(at(1)));
    refused(resume(
        step,
        ConnectReply::Read {
            now: at(0),
            result: Err(fault()),
        },
    ));
    let step = output(open(), SetupOutput::Timeout(at(1)));
    let step = resume(step, ConnectReply::WaitedUntil { now: at(1) });
    let step = resume(
        step,
        ConnectReply::InputHandled(Err(MoonlightStreamProtoError {
            message: "no".to_string(),
        })),
    );
    assert!(matches!(
        step,
        ConnectStep::Done(Err(MoonlightStreamError::Setup(_)))
    ));
    let step = resume(
        bound(at(0)),
        ConnectReply::Control {
            now: at(1),
            result: Some(Err(MoonlightStreamError::Control(
                ControlError::NotConnected,
            ))),
        },
    );
    assert!(matches!(
        step,
        ConnectStep::Done(Err(MoonlightStreamError::Control(
            ControlError::NotConnected
        )))
    ));
}

#[test]
fn parts_that_are_missing_are_named() {
    let mut parts: Parts<TestParts> = Parts {
        tcp_open: false,
        audio: None,
        video: None,
        control: None,
        foundation_mic: None,
    };
    let write = SetupOutput::TcpWrite { data: vec![] };
    let wait = SetupOutput::Timeout(at(0));
    let done = SetupOutput::Connected { features: 0 };
    assert_eq!(parts.missing_part(&write), Some(MissingPart::TcpStream));
    assert_eq!(parts.missing_part(&wait), Some(MissingPart::TcpStream));
    parts.tcp_open = true;
    assert_eq!(parts.missing_part(&write), None);
    assert_eq!(parts.missing_part(&wait), None);
    assert_eq!(parts.missing_part(&done), Some(MissingPart::AudioStream));
    parts.audio = Some((1, "audio"));
    assert_eq!(parts.missing_part(&done), Some(MissingPart::VideoStream));
    parts.video = Some((1, "video"));
    assert_eq!(parts.missing_part(&done), Some(MissingPart::ControlStream));
    parts.control = Some("control");
    assert_eq!(parts.missing_part(&done), None);
}

#[test]
fn errors_and_events_of_streams_become_those_of_the_session() {
    assert!(matches!(
        MoonlightStreamError::from(io::Error::from(io::ErrorKind::NotFound)),
        MoonlightStreamError::Io(_)
    ));
    assert!(matches!(
        MoonlightStreamError::from(AudioStreamError::Depayloader(
            AudioDepayloaderError::BufferTooSmall
        )),
        MoonlightStreamError::Audio(_)
    ));
    assert!(matches!(
        MoonlightStreamError::from(VideoStreamError::Depayloader(
            VideoDepayloaderError::BufferTooSmall
        )),
        MoonlightStreamError::Video(_)
    ));
    assert!(matches!(
        MoonlightStreamError::from(ControlError::NotConnected),
        MoonlightStreamError::Control(ControlError::NotConnected)
    ));
    assert!(matches!(
        MoonlightStreamError::from(FoundationMicStreamError {
            message: String::new()
        }),
        MoonlightStreamError::FoundationMic(_)
    ));
    assert!(matches!(
        MoonlightStreamEvent::from(frame()),
        MoonlightStreamEvent::Audio(AudioStreamEvent::OnFrame(_))
    ));
    assert!(matches!(
        MoonlightStreamEvent::from(VideoStreamEvent::SignalIdr),
        MoonlightStreamEvent::Video(VideoStreamEvent::SignalIdr)
    ));
    assert!(matches!(
        MoonlightStreamEvent::from(ControlStreamEvent::Connect),
        MoonlightStreamEvent::Control(ControlStreamEvent::Connect)
    ));
}

#[test]
fn microphone_data_needs_a_stream_that_takes_it() {
    assert!(microphone_accepted(Some(Ok(()))));
    assert!(!microphone_accepted(Some(Err(FoundationMicStreamError {
        message: String::new()
    }))));
    assert!(!microphone_accepted(None));
}
