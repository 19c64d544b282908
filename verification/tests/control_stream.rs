use std::cell::{Cell, RefCell};
use std::collections::VecDeque;
use std::rc::Rc;
use std::time::Duration;

use moonlight_stream::control::host::{
    ControlError, ControlHostEvent, ControlPeerId, EnetError, HostReply, HostRequest,
    PeerSendError,
};
use moonlight_stream::control::input::{KeyAction, KeyCode, KeyFlags, KeyModifiers};
use moonlight_stream::control::input_batcher::ClientInputEvent;
use moonlight_stream::control::packet::ControlPacket;
use moonlight_stream::control::permissions::ApolloPermissions;
use moonlight_stream::control::stream::{
    connect_request, ControlStream, ControlStreamConfig, ControlStreamEvent, EstimatedRttInfo,
    PingStep, UpdateStep,
};
use moonlight_stream::net::SocketAddr;
use moonlight_stream::time::Instant;
use moonlight_stream::version::ServerVersion;
use rusty_enet::{
    Address, Event, Host, HostSettings, Packet, PacketReceived, PeerID, PeerState, Socket,
};

type Datagrams = Rc<RefCell<VecDeque<Vec<u8>>>>;

/// The only address that a [`MemorySocket`] talks to.
#[derive(Clone)]
struct OtherEnd;

impl Address for OtherEnd {
    fn same_host(&self, _: &OtherEnd) -> bool {
        true
    }
    fn same(&self, _: &OtherEnd) -> bool {
        true
    }
    fn is_broadcast(&self) -> bool {
        false
    }
}

#[derive(Debug)]
struct Never;

impl core::fmt::Display for Never {
    fn fmt(&self, _: &mut core::fmt::Formatter<'_>) -> core::fmt::Result {
        Ok(())
    }
}

impl std::error::Error for Never {}

struct MemorySocket {
    inbox: Datagrams,
    outbox: Datagrams,
}

impl Socket for MemorySocket {
    type Address = OtherEnd;
    type Error = Never;

    fn send(&mut self, _: OtherEnd, buffer: &[u8]) -> Result<usize, Never> {
        self.outbox.borrow_mut().push_back(buffer.to_vec());
        Ok(buffer.len())
    }

    fn receive(
        &mut self,
        buffer: &mut [u8; rusty_enet::MTU_MAX],
    ) -> Result<Option<(OtherEnd, PacketReceived)>, Never> {
        Ok(self.inbox.borrow_mut().pop_front().map(|datagram| {
            buffer[..datagram.len()].copy_from_slice(&datagram);
            (OtherEnd, PacketReceived::Complete(datagram.len()))
        }))
    }
}

/// An ENet host that is told the time.
struct EnetHost {
    host: Host<MemorySocket>,
    clock: Rc<Cell<u64>>,
    inbox: Datagrams,
    outbox: Datagrams,
    events: VecDeque<ControlHostEvent>,
}

impl EnetHost {
    fn new() -> EnetHost {
        let clock = Rc::new(Cell::new(0));
        let inbox = Datagrams::default();
        let outbox = Datagrams::default();
        let time = clock.clone();
        let host = Host::new(
            MemorySocket {
                inbox: inbox.clone(),
                outbox: outbox.clone(),
            },
            HostSettings {
                peer_limit: 1,
                channel_limit: 2,
                time: Box::new(move || Duration::from_nanos(time.get())),
                seed: Some(1),
                ..Default::default()
            },
        )
        .unwrap();
        EnetHost {
            host,
            clock,
            inbox,
            outbox,
            events: VecDeque::new(),
        }
    }

    fn service(&mut self, now: Instant) {
        // time zero is no time to ENet
        self.clock.set(now.as_nanos() as u64 + 1_000_000_000);
        while let Some(event) = self.host.service().unwrap() {
            self.events.push_back(match event {
                Event::Connect { peer, data } => ControlHostEvent::Connected {
                    id: ControlPeerId(peer.id().0 as u64),
                    sunshine_connect_data: data,
                },
                Event::Disconnect { peer, .. } => ControlHostEvent::Disconnected {
                    id: ControlPeerId(peer.id().0 as u64),
                },
                Event::Receive {
                    peer,
                    channel_id,
                    packet,
                } => ControlHostEvent::Receive {
                    id: ControlPeerId(peer.id().0 as u64),
                    channel_id,
                    packet: ControlPacket::Other {
                        packet_type: 0,
                        payload: packet.data().to_vec(),
                    },
                },
            });
        }
    }

    fn peer_is_gone(&mut self) -> bool {
        self.host
            .peers()
            .all(|peer| peer.state() == PeerState::Disconnected)
    }

    fn perform(&mut self, request: HostRequest, datagram: Option<Vec<u8>>) -> HostReply {
        match request {
            HostRequest::HandleReceive { now } => {
                self.inbox.borrow_mut().extend(datagram);
                self.service(now);
                HostReply::Handled(Ok(()))
            }
            HostRequest::HandleTimeout { now } => {
                self.service(now);
                HostReply::Handled(Ok(()))
            }
            HostRequest::PollEvent => HostReply::Event(self.events.pop_front()),
            HostRequest::Send { peer, .. } => HostReply::Sent(
                self.host
                    .peer_mut(PeerID(peer.0 as usize))
                    .send(0, &Packet::reliable(&[1u8, 2, 3][..]))
                    .map_err(|error| {
                        assert_eq!(error, rusty_enet::error::PeerSendError::NotConnected);
                        ControlError::Enet(EnetError::PeerSendError(PeerSendError::NotConnected))
                    }),
            ),
            HostRequest::Disconnect { peer, data } => {
                self.host.peer_mut(PeerID(peer.0 as usize)).disconnect(data);
                HostReply::Disconnected(Ok(()))
            }
            HostRequest::DisconnectNow { peer, data } => {
                self.host
                    .peer_mut(PeerID(peer.0 as usize))
                    .disconnect_now(data);
                HostReply::Disconnected(Ok(()))
            }
            HostRequest::CanDiscard => HostReply::CanDiscard(self.peer_is_gone()),
        }
    }
}

/// Runs an update to its end.
fn run(
    stream: &mut ControlStream,
    host: &mut EnetHost,
    mut step: UpdateStep,
    mut datagram: Option<Vec<u8>>,
) -> Result<(), ControlError> {
    loop {
        match step {
            UpdateStep::Ask(request, phase) => {
                let reply = host.perform(request, datagram.take());
                step = stream.resume(phase, reply);
            }
            UpdateStep::Done(result) => return result,
        }
    }
}

fn server_addr() -> SocketAddr {
    SocketAddr::v4(127, 0, 0, 1, 47999)
}

fn config(version: ServerVersion) -> ControlStreamConfig {
    ControlStreamConfig {
        server_version: version,
        addr: server_addr(),
        sunshine_connect_data: None,
        encryption: None,
        apollo_permissions: None,
    }
}

fn sunshine() -> ServerVersion {
    ServerVersion::new(7, 1, 431, -1)
}

fn connected_pair() -> (ControlStream, EnetHost, EnetHost, Instant) {
    let mut client_host = EnetHost::new();
    let mut server = EnetHost::new();
    let request = connect_request(&config(sunshine()), true).unwrap();
    assert_eq!(request.addr, server_addr());
    assert_eq!(request.server_version, sunshine());
    client_host.clock.set(1_000_000_000);
    let peer = client_host
        .host
        .connect(OtherEnd, 2, request.sunshine_connect_data.unwrap_or(0))
        .unwrap()
        .id();
    let mut client = ControlStream::new(
        Instant::from_nanos(0),
        config(sunshine()),
        true,
        ControlPeerId(peer.0 as u64),
    )
    .unwrap();
    let mut connected = false;
    let mut server_connected = false;
    for tick in 0..100 {
        let now = Instant::from_nanos(tick * 10_000_000);
        let step = client.handle_timeout(now);
        run(&mut client, &mut client_host, step, None).unwrap();
        server.service(now);
        let sent: Vec<Vec<u8>> = client_host.outbox.borrow_mut().drain(..).collect();
        for datagram in sent {
            server.inbox.borrow_mut().push_back(datagram);
            server.service(now);
        }
        while let Some(event) = server.events.pop_front() {
            server_connected |= matches!(event, ControlHostEvent::Connected { .. });
        }
        let sent: Vec<Vec<u8>> = server.outbox.borrow_mut().drain(..).collect();
        for datagram in sent {
            let step = client.handle_receive(now, server_addr());
            run(&mut client, &mut client_host, step, Some(datagram)).unwrap();
        }
        while let Some(event) = client.poll_event() {
            connected |= matches!(event, ControlStreamEvent::Connect);
        }
        if connected && server_connected && tick > 5 {
            return (client, client_host, server, now);
        }
    }
    panic!("control peers did not connect");
}

#[test]
fn remote_disconnect_is_delivered_before_not_connected_error() {
    let (mut client, mut client_host, mut server, now) = connected_pair();
    let later = now.plus(50_000_000);
    server.host.peer_mut(PeerID(0)).disconnect_now(0);
    server.service(later);
    let sent: Vec<Vec<u8>> = server.outbox.borrow_mut().drain(..).collect();
    for datagram in sent {
        let step = client.handle_receive(later, server_addr());
        run(&mut client, &mut client_host, step, Some(datagram))
            .expect("disconnect must remain observable instead of aborting the browser pump");
    }
    assert!(matches!(
        client.poll_event(),
        Some(ControlStreamEvent::Disconnect)
    ));
    // the event was taken: from now on there is no connection
    let step = client.handle_timeout(later.plus(50_000_000));
    assert_eq!(
        run(&mut client, &mut client_host, step, None),
        Err(ControlError::NotConnected)
    );
}

#[test]
fn lost_control_path_delivers_disconnect_without_aborting_timer_pump() {
    let (mut client, mut client_host, _server, start) = connected_pair();
    for tick in 1..2400 {
        let step = client.handle_timeout(start.plus(tick * 50_000_000));
        run(&mut client, &mut client_host, step, None)
            .expect("timeout must deliver Disconnect before returning NotConnected");
        client_host.outbox.borrow_mut().clear();
        while let Some(event) = client.poll_event() {
            if matches!(event, ControlStreamEvent::Disconnect) {
                return;
            }
        }
    }
    panic!("blackholed control peer did not time out within 120 seconds");
}

const PEER: ControlPeerId = ControlPeerId(4);

fn stream(version: ServerVersion) -> ControlStream {
    ControlStream::new(Instant::from_nanos(0), config(version), true, PEER).unwrap()
}

/// Runs an update with the answers given, and checks what is asked.
fn play(
    stream: &mut ControlStream,
    mut step: UpdateStep,
    script: Vec<(HostRequest, HostReply)>,
) -> Result<(), ControlError> {
    for (expected, reply) in script {
        match step {
            UpdateStep::Ask(request, phase) => {
                assert_eq!(format!("{request:?}"), format!("{expected:?}"));
                step = stream.resume(phase, reply);
            }
            UpdateStep::Done(result) => panic!("over with {result:?} before {expected:?}"),
        }
    }
    match step {
        UpdateStep::Ask(request, _) => panic!("{request:?} is not in the script"),
        UpdateStep::Done(result) => result,
    }
}

fn told(now: i64) -> (HostRequest, HostReply) {
    (
        HostRequest::HandleTimeout {
            now: Instant::from_nanos(now),
        },
        HostReply::Handled(Ok(())),
    )
}

fn event(event: ControlHostEvent) -> (HostRequest, HostReply) {
    (HostRequest::PollEvent, HostReply::Event(Some(event)))
}

fn no_event() -> (HostRequest, HostReply) {
    (HostRequest::PollEvent, HostReply::Event(None))
}

fn peer_is_gone(gone: bool) -> (HostRequest, HostReply) {
    (HostRequest::CanDiscard, HostReply::CanDiscard(gone))
}

fn sent(packet: ControlPacket, result: Result<(), ControlError>) -> (HostRequest, HostReply) {
    (
        HostRequest::Send {
            peer: PEER,
            server_version: sunshine(),
            packet,
        },
        HostReply::Sent(result),
    )
}

fn scroll(scroll_amount: i16) -> ControlPacket {
    ControlPacket::MouseHorizontalScroll { scroll_amount }
}

#[test]
fn old_and_unknown_hosts_are_not_supported() {
    let old = ServerVersion::new(4, 9, 9, 0);
    assert!(matches!(
        ControlStream::new(Instant::from_nanos(0), config(old), true, PEER),
        Err(ControlError::VersionNotSupported(version)) if version == old
    ));
    let unknown = ServerVersion::new(5, 0, 0, 0);
    assert!(matches!(
        connect_request(&config(unknown), false),
        Err(ControlError::VersionNotSupported(version)) if version == unknown
    ));
    assert!(connect_request(&config(unknown), true).is_ok());
}

#[test]
fn versions_are_compared_part_by_part() {
    let from = ServerVersion::new(7, 1, 415, 0);
    assert!(ServerVersion::new(7, 1, 415, 0).is_at_least(from));
    assert!(!ServerVersion::new(7, 1, 415, -1).is_at_least(from));
    assert!(ServerVersion::new(7, 1, 431, -1).is_at_least(from));
    assert!(!ServerVersion::new(7, 0, 999, 9).is_at_least(from));
    assert!(ServerVersion::new(8, 0, 0, 0).is_at_least(from));
    assert!(ServerVersion::new(7, 1, 431, -1).is_sunshine_like());
    assert!(!ServerVersion::new(7, 1, 431, 0).is_sunshine_like());
}

#[test]
fn estimated_rtt_needs_a_measurement() {
    let stream = stream(sunshine());
    let measured = EstimatedRttInfo {
        rtt_nanos: 12,
        rtt_variance_nanos: 3,
    };
    assert_eq!(stream.estimated_rtt(Some(measured)), Ok(measured));
    assert_eq!(
        stream.estimated_rtt(None),
        Err(ControlError::NotConnected)
    );
}

#[test]
fn inputs_are_refused_without_permission() {
    let mut config = config(sunshine());
    config.apollo_permissions = Some(ApolloPermissions(0x800));
    let mut stream = ControlStream::new(Instant::from_nanos(0), config, true, PEER).unwrap();
    let key = ClientInputEvent::Keyboard {
        action: KeyAction::Down,
        flags: KeyFlags(0),
        key_code: KeyCode(65),
        modifiers: KeyModifiers(0),
    };
    assert!(matches!(
        stream.batch_input(key),
        Err(ControlError::ApolloPermissionDenied)
    ));
    assert!(matches!(
        stream.batch_input(ClientInputEvent::ControllerDisconnect {
            controller_number: 0
        }),
        Err(ControlError::ApolloPermissionDenied)
    ));
    assert!(matches!(
        stream.batch_input(ClientInputEvent::MouseScrollHorizontal { scroll_x: 1 }),
        Ok(None)
    ));
    assert_eq!(stream.send_batched_inputs_now().len(), 1);
}

#[test]
fn horizontal_scrolling_needs_sunshine() {
    let mut stream = stream(ServerVersion::new(7, 1, 431, 0));
    assert!(matches!(
        stream.batch_input(ClientInputEvent::MouseScrollHorizontal { scroll_x: 1 }),
        Err(ControlError::PacketNotSupported)
    ));
    // nothing was collected
    assert!(stream.send_batched_inputs_now().is_empty());
    assert!(matches!(
        stream.batch_input(ClientInputEvent::MouseScrollVertical { scroll_y: 1 }),
        Ok(None)
    ));
}

#[test]
fn keys_become_requests_at_once() {
    let mut stream = stream(sunshine());
    let key = ClientInputEvent::Keyboard {
        action: KeyAction::Down,
        flags: KeyFlags(0),
        key_code: KeyCode(65),
        modifiers: KeyModifiers(0),
    };
    assert!(matches!(
        stream.batch_input(key),
        Ok(Some(HostRequest::Send {
            peer: PEER,
            packet: ControlPacket::Keyboard { .. },
            ..
        }))
    ));
    assert!(matches!(stream.batch_input(key), Ok(None)));
}

#[test]
fn forced_packets_wait_for_the_connection() {
    let mut stream = stream(sunshine());
    assert!(stream.send_inner(scroll(1), true).is_none());
    assert!(stream.send_inner(scroll(2), true).is_none());
    assert!(matches!(
        stream.send_inner(scroll(3), false),
        Some(HostRequest::Send { .. })
    ));
    let step = stream.handle_timeout(Instant::from_nanos(1));
    play(
        &mut stream,
        step,
        vec![
            told(1),
            event(ControlHostEvent::Connected {
                id: PEER,
                sunshine_connect_data: 0,
            }),
            sent(scroll(1), Ok(())),
            sent(scroll(2), Ok(())),
            no_event(),
            peer_is_gone(false),
        ],
    )
    .unwrap();
    assert!(matches!(
        stream.poll_event(),
        Some(ControlStreamEvent::Connect)
    ));
    assert!(stream.poll_event().is_none());
    // now forced packets go out like any other
    assert!(matches!(
        stream.send_inner(scroll(4), true),
        Some(HostRequest::Send { .. })
    ));
}

#[test]
fn a_waiting_packet_that_cannot_be_sent_ends_the_update() {
    let mut stream = stream(sunshine());
    stream.send_inner(scroll(1), true);
    stream.send_inner(scroll(2), true);
    let fault = ControlError::Enet(EnetError::PeerSendError(PeerSendError::FailedToQueue));
    let step = stream.handle_timeout(Instant::from_nanos(1));
    assert_eq!(
        play(
            &mut stream,
            step,
            vec![
                told(1),
                event(ControlHostEvent::Connected {
                    id: PEER,
                    sunshine_connect_data: 0,
                }),
                sent(scroll(1), Err(fault)),
            ],
        ),
        Err(fault)
    );
    assert!(stream.poll_event().is_none());
}

#[test]
fn strangers_are_disconnected_and_not_listened_to() {
    let mut stream = stream(sunshine());
    let stranger = ControlPeerId(9);
    let step = stream.handle_timeout(Instant::from_nanos(1));
    play(
        &mut stream,
        step,
        vec![
            told(1),
            event(ControlHostEvent::Connected {
                id: stranger,
                sunshine_connect_data: 0,
            }),
            (
                HostRequest::DisconnectNow {
                    peer: stranger,
                    data: 0,
                },
                HostReply::Disconnected(Err(ControlError::NotConnected)),
            ),
            event(ControlHostEvent::Receive {
                id: stranger,
                channel_id: 0,
                packet: scroll(1),
            }),
            event(ControlHostEvent::Disconnected { id: stranger }),
            no_event(),
            peer_is_gone(false),
        ],
    )
    .unwrap();
    assert!(stream.poll_event().is_none());
}

#[test]
fn a_terminated_session_is_closed_at_once() {
    let mut stream = stream(sunshine());
    let packet = || ControlPacket::ServerTermination { reason: 5 };
    let close = |result| {
        (
            HostRequest::DisconnectNow {
                peer: PEER,
                data: 0,
            },
            HostReply::Disconnected(result),
        )
    };
    let receive = || {
        event(ControlHostEvent::Receive {
            id: PEER,
            channel_id: 0,
            packet: packet(),
        })
    };
    let step = stream.handle_timeout(Instant::from_nanos(1));
    play(
        &mut stream,
        step,
        vec![
            told(1),
            receive(),
            close(Ok(())),
            event(ControlHostEvent::Disconnected { id: PEER }),
            no_event(),
            peer_is_gone(true),
        ],
    )
    .unwrap();
    assert!(matches!(
        stream.poll_event(),
        Some(ControlStreamEvent::Packet(
            ControlPacket::ServerTermination { reason: 5 }
        ))
    ));
    assert!(matches!(
        stream.poll_event(),
        Some(ControlStreamEvent::Disconnect)
    ));
    let step = stream.handle_timeout(Instant::from_nanos(2));
    assert_eq!(
        play(
            &mut stream,
            step,
            vec![
                told(2),
                receive(),
                close(Err(ControlError::NotConnected)),
            ],
        ),
        Err(ControlError::NotConnected)
    );
    let step = stream.handle_timeout(Instant::from_nanos(3));
    assert_eq!(
        play(
            &mut stream,
            step,
            vec![told(3), no_event(), peer_is_gone(true)],
        ),
        Err(ControlError::NotConnected)
    );
}

#[test]
fn updates_succeed_until_the_end_was_taken() {
    let mut stream = stream(sunshine());
    let step = stream.handle_timeout(Instant::from_nanos(1));
    play(
        &mut stream,
        step,
        vec![
            told(1),
            event(ControlHostEvent::Disconnected { id: PEER }),
            no_event(),
            peer_is_gone(false),
        ],
    )
    .unwrap();
    for now in 2..5 {
        let step = stream.handle_timeout(Instant::from_nanos(now));
        play(
            &mut stream,
            step,
            vec![told(now), no_event(), peer_is_gone(true)],
        )
        .unwrap();
    }
    assert!(matches!(
        stream.poll_event(),
        Some(ControlStreamEvent::Disconnect)
    ));
    let step = stream.handle_timeout(Instant::from_nanos(5));
    assert_eq!(
        play(
            &mut stream,
            step,
            vec![told(5), no_event(), peer_is_gone(true)],
        ),
        Err(ControlError::NotConnected)
    );
}

#[test]
fn datagrams_from_elsewhere_are_ignored() {
    let stream = stream(sunshine());
    assert!(matches!(
        stream.handle_receive(
            Instant::from_nanos(1),
            SocketAddr::v4(127, 0, 0, 1, 48000)
        ),
        UpdateStep::Done(Ok(()))
    ));
    assert!(matches!(
        stream.handle_receive(Instant::from_nanos(1), server_addr()),
        UpdateStep::Ask(HostRequest::HandleReceive { .. }, _)
    ));
}

#[test]
fn a_fault_of_the_transport_ends_the_update() {
    let mut stream = stream(sunshine());
    let fault = ControlError::Enet(EnetError::BadParameter);
    let step = stream.handle_timeout(Instant::from_nanos(1));
    assert_eq!(
        play(
            &mut stream,
            step,
            vec![(
                HostRequest::HandleTimeout {
                    now: Instant::from_nanos(1)
                },
                HostReply::Handled(Err(fault))
            )],
        ),
        Err(fault)
    );
}

#[test]
fn pings_and_batches_have_their_time() {
    let mut stream = stream(sunshine());
    // the ping interval, and no batch
    assert_eq!(
        stream.poll_timeout(None),
        Some(Instant::from_nanos(100_000_000))
    );
    assert_eq!(
        stream.poll_timeout(Some(Instant::from_nanos(7))),
        Some(Instant::from_nanos(7))
    );
    assert!(matches!(
        stream.batch_input(ClientInputEvent::MouseScrollHorizontal { scroll_x: 3 }),
        Ok(None)
    ));
    assert_eq!(
        stream.poll_timeout(None),
        Some(Instant::from_nanos(1_000_000))
    );
    // too early for either
    let step = stream.handle_timeout(Instant::from_nanos(999_999));
    play(
        &mut stream,
        step,
        vec![told(999_999), no_event(), peer_is_gone(false)],
    )
    .unwrap();
    // time for the batch
    let step = stream.handle_timeout(Instant::from_nanos(1_000_000));
    play(
        &mut stream,
        step,
        vec![
            told(1_000_000),
            no_event(),
            peer_is_gone(false),
            sent(scroll(3), Ok(())),
        ],
    )
    .unwrap();
    assert_eq!(
        stream.poll_timeout(None),
        Some(Instant::from_nanos(100_000_000))
    );
    // time for a ping, which fails for want of a connection and is no error
    let step = stream.handle_timeout(Instant::from_nanos(100_000_000));
    play(
        &mut stream,
        step,
        vec![
            told(100_000_000),
            no_event(),
            peer_is_gone(false),
            sent(
                ControlPacket::PeriodicPing,
                Err(ControlError::Enet(EnetError::PeerSendError(
                    PeerSendError::NotConnected,
                ))),
            ),
        ],
    )
    .unwrap();
    // another fault is one
    let fault = ControlError::Enet(EnetError::NoAvailablePeers);
    let step = stream.handle_timeout(Instant::from_nanos(100_000_001));
    assert_eq!(
        play(
            &mut stream,
            step,
            vec![
                told(100_000_001),
                no_event(),
                peer_is_gone(false),
                sent(ControlPacket::PeriodicPing, Err(fault)),
            ],
        ),
        Err(fault)
    );
    // and a ping that is sent puts the next one off
    let step = stream.handle_timeout(Instant::from_nanos(100_000_002));
    play(
        &mut stream,
        step,
        vec![
            told(100_000_002),
            no_event(),
            peer_is_gone(false),
            sent(ControlPacket::PeriodicPing, Ok(())),
        ],
    )
    .unwrap();
    assert_eq!(
        stream.poll_timeout(None),
        Some(Instant::from_nanos(200_000_002))
    );
}

#[test]
fn a_host_that_wants_no_pings_gets_none() {
    let mut stream = stream(ServerVersion::new(7, 1, 400, -1));
    let step = stream.handle_timeout(Instant::from_nanos(500_000_000));
    play(
        &mut stream,
        step,
        vec![told(500_000_000), no_event(), peer_is_gone(false)],
    )
    .unwrap();
    assert_eq!(
        stream.poll_timeout(None),
        Some(Instant::from_nanos(600_000_000))
    );
    assert!(matches!(stream.do_ping(), PingStep::Next(None)));
    assert_eq!(stream.next_ping(), None);
}

#[test]
fn pings_tell_when_the_next_one_must_be_sent() {
    let mut stream = stream(sunshine());
    assert!(matches!(
        stream.do_ping(),
        PingStep::Next(Some(next)) if next == Instant::from_nanos(100_000_000)
    ));
    let step = stream.handle_timeout(Instant::from_nanos(150_000_000));
    let not_connected =
        ControlError::Enet(EnetError::PeerSendError(PeerSendError::NotConnected));
    play(
        &mut stream,
        step,
        vec![
            told(150_000_000),
            no_event(),
            peer_is_gone(false),
            sent(ControlPacket::PeriodicPing, Err(not_connected)),
        ],
    )
    .unwrap();
    // still due
    assert!(matches!(
        stream.do_ping(),
        PingStep::Ask(HostRequest::Send {
            packet: ControlPacket::PeriodicPing,
            ..
        })
    ));
    assert_eq!(
        stream.ping_sent(Err(not_connected)),
        Ok(Some(Instant::from_nanos(100_000_000)))
    );
    let fault = ControlError::Enet(EnetError::NoAvailablePeers);
    assert_eq!(stream.ping_sent(Err(fault)), Err(fault));
    assert_eq!(
        stream.ping_sent(Ok(())),
        Ok(Some(Instant::from_nanos(250_000_000)))
    );
    assert_eq!(stream.next_ping(), Some(Instant::from_nanos(250_000_000)));
    assert_eq!(stream.poll_timeout(None), stream.next_ping());
}

#[test]
fn requests_name_the_peer() {
    let stream = stream(sunshine());
    assert!(matches!(
        stream.disconnect(3),
        HostRequest::Disconnect {
            peer: PEER,
            data: 3
        }
    ));
    assert!(matches!(stream.can_discard(), HostRequest::CanDiscard));
    assert!(matches!(
        stream.send_raw(scroll(1)),
        HostRequest::Send {
            peer: PEER,
            server_version,
            packet: ControlPacket::MouseHorizontalScroll { scroll_amount: 1 }
        } if server_version == sunshine()
    ));
}
