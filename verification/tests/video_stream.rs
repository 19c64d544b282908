use moonlight_stream::audio::fec::FecError;
use moonlight_stream::net::SocketAddr;
use moonlight_stream::ping::SunshinePing;
use moonlight_stream::time::Instant;
use moonlight_stream::video::frames::{FrameIndex, FrameType, OwnedVideoFrame};
use moonlight_stream::video::stream::{
    FrameReport, VideoDepayloaderError, VideoStream, VideoStreamConfig, VideoStreamError,
    VideoStreamEvent, FULL_FRAME_RECEIVE_TIMEOUT,
};

fn addr() -> SocketAddr {
    SocketAddr::v4(127, 0, 0, 1, 47998)
}

fn fixture() -> VideoStream {
    VideoStream::new(
        Instant::from_nanos(0),
        VideoStreamConfig {
            addr: addr(),
            fps: 60,
            sunshine_ping: None,
            sunshine_encryption: None,
        },
    )
}

fn frame(index: u32, frame_type: FrameType) -> OwnedVideoFrame {
    OwnedVideoFrame {
        frame_index: FrameIndex(index),
        frame_type,
        data: vec![0x55; 2000],
    }
}

/// A frame of three datagrams.
fn feed(stream: &mut VideoStream, now: Instant, index: u32, frame_type: FrameType) {
    for _ in 0..2 {
        stream
            .handle_receive(now, addr(), Ok(vec![FrameReport::Seen(FrameIndex(index))]))
            .unwrap();
    }
    stream
        .handle_receive(
            now,
            addr(),
            Ok(vec![FrameReport::Complete(frame(index, frame_type))]),
        )
        .unwrap();
}

fn next_frame(stream: &mut VideoStream) -> Option<u32> {
    match stream.poll_event() {
        Some(VideoStreamEvent::OnFrame(frame)) => Some(frame.frame_index.0),
        Some(VideoStreamEvent::SignalIdr) => panic!("no new start is due"),
        None => None,
    }
}

/// Ends the pings.
fn finish_pings(stream: &mut VideoStream) {
    stream
        .handle_receive(Instant::from_nanos(0), addr(), Ok(vec![]))
        .unwrap();
}

#[test]
fn stalled_video_timer_must_advance_after_requesting_recovery() {
    let mut stream = fixture();
    finish_pings(&mut stream);
    let now = Instant::from_nanos(2_000_000_000);
    stream.handle_timeout(now).unwrap();
    assert!(matches!(
        stream.poll_event(),
        Some(VideoStreamEvent::SignalIdr)
    ));
    assert!(
        stream.poll_timeout().unwrap().as_nanos() > now.as_nanos(),
        "an already-expired deadline spins the UDP driver and starves the other media/control tasks"
    );
}

#[test]
fn a_new_start_is_asked_for_only_when_it_is_due() {
    let mut stream = fixture();
    finish_pings(&mut stream);
    stream.do_idr_request().unwrap();
    assert!(stream.poll_event().is_none());
    let now = Instant::from_nanos(2_000_000_000);
    stream.handle_timeout(now).unwrap();
    assert!(matches!(
        stream.poll_event(),
        Some(VideoStreamEvent::SignalIdr)
    ));
    stream.do_idr_request().unwrap();
    stream.update(now).unwrap();
    assert!(stream.poll_event().is_none());
}

#[test]
fn video_setup_must_schedule_its_initial_ping() {
    let stream = fixture();
    assert_eq!(stream.poll_timeout(), Some(Instant::from_nanos(0)));
}

#[test]
fn completely_missing_frame_uses_the_later_frame_as_loss_evidence() {
    let mut stream = fixture();
    feed(&mut stream, Instant::from_nanos(0), 1, FrameType::Idr);
    assert!(matches!(
        stream.poll_event(),
        Some(VideoStreamEvent::OnFrame(_))
    ));
    // lose all of frame 2
    let later = Instant::from_nanos(33_000_000);
    feed(&mut stream, later, 3, FrameType::PFrame);
    assert!(
        stream.poll_timeout().unwrap().as_nanos()
            <= later.plus(FULL_FRAME_RECEIVE_TIMEOUT).as_nanos(),
        "one missing frame must not wait the two-second whole-stream stall timer"
    );
}

#[test]
fn completed_frames_do_not_accumulate_first_seen_history() {
    let mut stream = fixture();
    for i in 0..1000u64 {
        feed(
            &mut stream,
            Instant::from_nanos((i * 16_666_667) as i64),
            i as u32 + 1,
            FrameType::Idr,
        );
        assert!(matches!(
            stream.poll_event(),
            Some(VideoStreamEvent::OnFrame(_))
        ));
    }
    assert!(
        stream.frames_first_seen_len() <= 1,
        "completed frame history grows for the lifetime of the game"
    );
}

#[test]
fn decoding_starts_at_an_idr() {
    let mut stream = fixture();
    feed(&mut stream, Instant::from_nanos(0), 1, FrameType::PFrame);
    feed(&mut stream, Instant::from_nanos(1), 2, FrameType::PFrame);
    assert_eq!(next_frame(&mut stream), None);
    feed(&mut stream, Instant::from_nanos(2), 3, FrameType::Idr);
    assert_eq!(next_frame(&mut stream), Some(3));
    feed(&mut stream, Instant::from_nanos(3), 4, FrameType::PFrame);
    assert_eq!(next_frame(&mut stream), Some(4));
}

#[test]
fn frames_come_in_order_and_once() {
    let mut stream = fixture();
    feed(&mut stream, Instant::from_nanos(0), 1, FrameType::Idr);
    assert_eq!(next_frame(&mut stream), Some(1));
    feed(&mut stream, Instant::from_nanos(1), 3, FrameType::PFrame);
    assert_eq!(next_frame(&mut stream), None);
    feed(&mut stream, Instant::from_nanos(2), 2, FrameType::PFrame);
    assert_eq!(next_frame(&mut stream), Some(2));
    // one frame for each update
    assert_eq!(next_frame(&mut stream), None);
    stream.handle_timeout(Instant::from_nanos(3)).unwrap();
    assert_eq!(next_frame(&mut stream), Some(3));
    // a frame that has passed does not come back
    feed(&mut stream, Instant::from_nanos(4), 2, FrameType::Idr);
    assert_eq!(next_frame(&mut stream), None);
}

#[test]
fn dropped_frames_are_told_once() {
    let mut stream = fixture();
    feed(&mut stream, Instant::from_nanos(0), 5, FrameType::Idr);
    assert_eq!(next_frame(&mut stream), Some(5));
    assert!(stream.take_discarded().is_empty());
    let reports = [3, 9, 4]
        .map(|index| FrameReport::Seen(FrameIndex(index)))
        .into_iter()
        .collect();
    stream
        .handle_receive(Instant::from_nanos(1), addr(), Ok(reports))
        .unwrap();
    assert_eq!(
        stream.take_discarded(),
        vec![FrameIndex(3), FrameIndex(4)]
    );
    stream.handle_timeout(Instant::from_nanos(2)).unwrap();
    assert!(stream.take_discarded().is_empty());
}

#[test]
fn a_search_goes_on_with_the_frame_that_is_due_or_an_idr() {
    let mut stream = fixture();
    feed(&mut stream, Instant::from_nanos(0), 1, FrameType::Idr);
    assert_eq!(next_frame(&mut stream), Some(1));
    stream
        .handle_timeout(Instant::from_nanos(2_000_000_000))
        .unwrap();
    assert!(matches!(
        stream.poll_event(),
        Some(VideoStreamEvent::SignalIdr)
    ));
    // the stream waits for a new start, but the frame that is due is good too
    let now = Instant::from_nanos(2_000_000_001);
    feed(&mut stream, now, 4, FrameType::PFrame);
    assert_eq!(next_frame(&mut stream), None);
    feed(&mut stream, now, 2, FrameType::PFrame);
    assert_eq!(next_frame(&mut stream), Some(2));
    feed(&mut stream, now, 7, FrameType::Idr);
    assert_eq!(next_frame(&mut stream), Some(7));
}

#[test]
fn a_lost_frame_leads_to_a_new_start() {
    let mut stream = fixture();
    feed(&mut stream, Instant::from_nanos(0), 1, FrameType::Idr);
    assert_eq!(next_frame(&mut stream), Some(1));
    let later = Instant::from_nanos(33_000_000);
    feed(&mut stream, later, 3, FrameType::PFrame);
    assert_eq!(
        stream.poll_timeout(),
        Some(Instant::from_nanos(133_000_000))
    );
    stream
        .handle_timeout(Instant::from_nanos(132_999_999))
        .unwrap();
    assert_eq!(next_frame(&mut stream), None);
    stream
        .handle_timeout(Instant::from_nanos(133_000_000))
        .unwrap();
    assert!(matches!(
        stream.poll_event(),
        Some(VideoStreamEvent::SignalIdr)
    ));
    // the next request is a second away
    assert_eq!(
        stream.poll_timeout(),
        Some(Instant::from_nanos(1_133_000_000))
    );
    stream
        .handle_timeout(Instant::from_nanos(1_132_999_999))
        .unwrap();
    assert!(stream.poll_event().is_none());
    stream
        .handle_timeout(Instant::from_nanos(1_133_000_000))
        .unwrap();
    assert!(matches!(
        stream.poll_event(),
        Some(VideoStreamEvent::SignalIdr)
    ));
    // and the new start ends the wait, though frame 2 never came
    feed(
        &mut stream,
        Instant::from_nanos(1_200_000_000),
        9,
        FrameType::Idr,
    );
    assert_eq!(next_frame(&mut stream), Some(9));
    assert_eq!(
        stream.poll_timeout(),
        Some(Instant::from_nanos(3_200_000_000))
    );
}

#[test]
fn an_incomplete_frame_has_its_own_time() {
    let mut stream = fixture();
    feed(&mut stream, Instant::from_nanos(0), 1, FrameType::Idr);
    assert_eq!(next_frame(&mut stream), Some(1));
    stream
        .handle_receive(
            Instant::from_nanos(10_000_000),
            addr(),
            Ok(vec![FrameReport::Seen(FrameIndex(2))]),
        )
        .unwrap();
    assert_eq!(
        stream.poll_timeout(),
        Some(Instant::from_nanos(110_000_000))
    );
    // a later frame that was seen earlier is no evidence: the frame itself was seen
    feed(
        &mut stream,
        Instant::from_nanos(20_000_000),
        3,
        FrameType::PFrame,
    );
    assert_eq!(
        stream.poll_timeout(),
        Some(Instant::from_nanos(110_000_000))
    );
}

#[test]
fn pings_repeat_until_the_host_answers() {
    let mut stream = fixture();
    assert!(stream.pending_send().is_none());
    stream.handle_timeout(Instant::from_nanos(0)).unwrap();
    let (to, ping) = stream.pending_send().unwrap();
    assert_eq!((to, ping.as_slice()), (addr(), b"PING".as_slice()));
    stream.consume_send();
    assert!(stream.pending_send().is_none());
    assert_eq!(
        stream.poll_timeout(),
        Some(Instant::from_nanos(500_000_000))
    );
    // a datagram from elsewhere only tells the time
    stream
        .handle_receive(
            Instant::from_nanos(500_000_000),
            SocketAddr::v4(10, 0, 0, 1, 1),
            Ok(vec![FrameReport::Complete(frame(1, FrameType::Idr))]),
        )
        .unwrap();
    assert!(stream.poll_event().is_none());
    assert!(stream.pending_send().is_some());
    stream.consume_send();
    stream
        .handle_receive(Instant::from_nanos(600_000_000), addr(), Ok(vec![]))
        .unwrap();
    stream
        .handle_timeout(Instant::from_nanos(1_500_000_000))
        .unwrap();
    assert!(stream.pending_send().is_none());
    assert!(stream.accepts(addr()));
    assert!(!stream.accepts(SocketAddr::v4(10, 0, 0, 1, 1)));
}

#[test]
fn sunshine_pings_carry_their_number() {
    let mut stream = VideoStream::new(
        Instant::from_nanos(0),
        VideoStreamConfig {
            addr: addr(),
            fps: 60,
            sunshine_ping: Some(SunshinePing { payload: [7; 16] }),
            sunshine_encryption: None,
        },
    );
    stream.handle_timeout(Instant::from_nanos(0)).unwrap();
    stream
        .handle_timeout(Instant::from_nanos(500_000_000))
        .unwrap();
    let (_, ping) = stream.pending_send().unwrap();
    let mut expected = vec![7; 16];
    expected.extend([0, 0, 0, 2]);
    assert_eq!(*ping, expected);
}

#[test]
fn a_datagram_that_cannot_be_taken_apart_is_an_error() {
    let mut stream = fixture();
    let error = VideoDepayloaderError::ReedSolomon(FecError::TooFewShards);
    assert_eq!(
        stream.handle_receive(Instant::from_nanos(1), addr(), Err(error)),
        Err(VideoStreamError::Depayloader(error))
    );
    // but no reason to ping again
    stream.handle_timeout(Instant::from_nanos(2)).unwrap();
    feed(&mut stream, Instant::from_nanos(3), 1, FrameType::Idr);
    assert_eq!(next_frame(&mut stream), Some(1));
}

#[test]
fn the_decoder_can_ask_for_a_new_start() {
    let mut stream = fixture();
    stream.request_idr();
    assert!(matches!(
        stream.poll_event(),
        Some(VideoStreamEvent::SignalIdr)
    ));
    assert!(stream.poll_event().is_none());
}
