//! What a control stream holds, and how each answer of the transport moves it
//! on.

use vstd::prelude::*;

use crate::control::host::{ControlError, ControlHostEvent, ControlPeerId, HostReply, HostRequest};
use crate::control::input_batcher::{after_input, BatcherView, ClientInputEvent};
use crate::control::packet::ControlPacket;
use crate::control::permissions::{needed_permission, ApolloPermissions};
use crate::control::stream::{ControlStreamConfig, ControlStreamEvent};
use crate::net::SocketAddr;
use crate::time::{soonest_spec, Instant};
use crate::version::ServerVersion;

verus! {

/// The time between two sends of collected input.
pub const BATCH_INTERVAL: u64 = 1_000_000;

/// The time between two periodic pings.
pub const PERIODIC_PING_INTERVAL: u64 = 100_000_000;

/// Whether a host wants periodic pings: those from version 7.1.415 on do.
pub open spec fn wants_pings(version: ServerVersion) -> bool {
    version.not_before(ServerVersion { major: 7, minor: 1, patch: 415, mini_patch: 0 })
}

/// Whether a stream can be set up with a host: older ones than version 5 have
/// their control stream on TCP, and for some others the packets are not known.
pub open spec fn version_supported(version: ServerVersion, packets_known: bool) -> bool {
    version.major >= 5 && packets_known
}

/// What a control stream holds.
#[verifier::ext_equal]
pub struct ControlView {
    pub server_version: ServerVersion,
    pub apollo_permissions: Option<ApolloPermissions>,
    pub addr: SocketAddr,
    pub peer: ControlPeerId,
    pub peer_connected: bool,
    /// The time that the stream was last told.
    pub last_now: Instant,
    /// The last periodic ping, or [None] if the host wants none.
    pub last_ping: Option<Instant>,
    /// Packets that wait for the connection.
    pub buffered_packets: Seq<ControlPacket>,
    pub last_batch_send: Instant,
    pub batcher: BatcherView,
    /// Events that have not been taken.
    pub events: Seq<ControlStreamEvent>,
}

/// Where an update is. Each phase waits for one answer of the transport.
pub enum PhaseView {
    /// Waits until the transport has taken in a datagram or the time.
    Handling { now: Instant },
    /// Waits for the next thing that the transport noticed.
    Polling,
    /// Waits until a stranger is disconnected.
    Rejecting,
    /// Waits until a packet that was buffered is sent; `rest` comes after it.
    Flushing { rest: Seq<ControlPacket> },
    /// Waits until the connection that the host terminated is closed.
    Terminating { packet: ControlPacket },
    /// Waits to hear whether the last peer is gone.
    Discarding,
    /// Waits until collected input is sent; `rest` comes after it.
    Batching { rest: Seq<ControlPacket> },
    /// Waits until a periodic ping is sent.
    Pinging,
}

/// What comes next in an update.
pub enum StepView {
    /// The transport is asked, and the update goes on with its answer.
    Ask(HostRequest, PhaseView),
    /// The update is over.
    Done(Result<(), ControlError>),
}

/// Whether an answer is one to what was asked before a phase.
pub open spec fn answers(phase: PhaseView, reply: HostReply) -> bool {
    match phase {
        PhaseView::Handling { .. } => reply is Handled,
        PhaseView::Polling => reply is Event,
        PhaseView::Rejecting => reply is Disconnected,
        PhaseView::Flushing { .. } => reply is Sent,
        PhaseView::Terminating { .. } => reply is Disconnected,
        PhaseView::Discarding => reply is CanDiscard,
        PhaseView::Batching { .. } => reply is Sent,
        PhaseView::Pinging => reply is Sent,
    }
}

/// Whether the deadlines that follow from a phase are instants.
pub open spec fn phase_wf(phase: PhaseView) -> bool {
    phase matches PhaseView::Handling { now } ==> now.can_add(PERIODIC_PING_INTERVAL as int)
}

impl ControlView {
    /// A stream that was just set up.
    pub open spec fn initial(
        now: Instant,
        config: ControlStreamConfig,
        peer: ControlPeerId,
    ) -> ControlView {
        ControlView {
            server_version: config.server_version,
            apollo_permissions: config.apollo_permissions,
            addr: config.addr,
            peer,
            peer_connected: false,
            last_now: now,
            last_ping: if wants_pings(config.server_version) {
                Some(now)
            } else {
                None
            },
            buffered_packets: Seq::empty(),
            last_batch_send: now,
            batcher: BatcherView::empty(),
            events: Seq::empty(),
        }
    }

    /// Nothing waits for a connection that is there, and every deadline is an
    /// instant.
    pub open spec fn wf(self) -> bool {
        &&& self.peer_connected ==> self.buffered_packets.len() == 0
        &&& self.last_now.can_add(PERIODIC_PING_INTERVAL as int)
        &&& self.last_batch_send.can_add(BATCH_INTERVAL as int)
        &&& self.last_ping matches Some(last_ping) ==> last_ping.can_add(
            PERIODIC_PING_INTERVAL as int,
        )
    }

    /// The request to send a packet.
    pub open spec fn send(self, packet: ControlPacket) -> HostRequest {
        HostRequest::Send { peer: self.peer, server_version: self.server_version, packet }
    }

    /// Why an input cannot be sent to this host, if it cannot.
    pub open spec fn input_fault(self, input: ClientInputEvent) -> Option<ControlError> {
        if self.apollo_permissions matches Some(permissions) && !permissions.has(
            needed_permission(input),
        ) {
            Some(ControlError::ApolloPermissionDenied)
        } else if input is MouseScrollHorizontal && !self.server_version.sunshine_like() {
            Some(ControlError::PacketNotSupported)
        } else {
            None
        }
    }

    /// What an input that can be sent does.
    pub open spec fn after_input(self, input: ClientInputEvent) -> ControlView {
        ControlView { batcher: after_input(self.batcher, input).0, ..self }
    }

    /// What sending everything that was collected does.
    pub open spec fn batch_sent(self) -> ControlView {
        ControlView {
            last_batch_send: self.last_now,
            batcher: self.batcher.emptied(),
            ..self
        }
    }

    pub open spec fn buffering(self, packet: ControlPacket) -> ControlView {
        ControlView { buffered_packets: self.buffered_packets.push(packet), ..self }
    }

    pub open spec fn with_event(self, event: ControlStreamEvent) -> ControlView {
        ControlView { events: self.events.push(event), ..self }
    }

    /// Whether an event that says that the connection is gone has not been
    /// taken yet.
    pub open spec fn tells_disconnect(self) -> bool {
        exists|i: int| 0 <= i < self.events.len() && self.events[i] is Disconnect
    }

    /// Whether collected input is to be sent.
    pub open spec fn batch_due(self) -> bool {
        self.batcher.dirty() && self.last_batch_send.nanos + BATCH_INTERVAL <= self.last_now.nanos
    }

    /// Whether a periodic ping is to be sent.
    pub open spec fn ping_due(self) -> bool {
        self.last_ping matches Some(last_ping) && self.last_now.nanos >= last_ping.nanos
            + PERIODIC_PING_INTERVAL
    }

    /// When the next periodic ping must be sent, if the host wants any.
    pub open spec fn next_ping(self) -> Option<Instant> {
        match self.last_ping {
            Some(last_ping) => Some(
                Instant { nanos: (last_ping.nanos + PERIODIC_PING_INTERVAL) as i64 },
            ),
            None => None,
        }
    }

    /// What the stream holds after a periodic ping was sent, or was not for
    /// want of a connection or for another reason.
    pub open spec fn after_ping(self, sent: Result<(), ControlError>) -> ControlView {
        match sent {
            Ok(()) => ControlView { last_ping: Some(self.last_now), ..self },
            Err(_) => self,
        }
    }

    /// When the stream next has to be told the time.
    pub open spec fn deadline(self, host_timeout: Option<Instant>) -> Option<Instant> {
        let batch_timeout = if self.batcher.dirty() {
            Some(Instant { nanos: (self.last_batch_send.nanos + BATCH_INTERVAL) as i64 })
        } else {
            None
        };
        let last_ping = match self.last_ping {
            Some(last_ping) => last_ping,
            None => self.last_now,
        };
        let ping_timeout = Some(
            Instant { nanos: (last_ping.nanos + PERIODIC_PING_INTERVAL) as i64 },
        );
        soonest_spec(soonest_spec(batch_timeout, ping_timeout), host_timeout)
    }
}

/// Asks for the next thing that the transport noticed.
pub open spec fn poll_next() -> StepView {
    StepView::Ask(HostRequest::PollEvent, PhaseView::Polling)
}

/// Sends the next buffered packet; once there is none, the connection is told.
pub open spec fn flushed(view: ControlView, rest: Seq<ControlPacket>) -> (ControlView, StepView) {
    if rest.len() == 0 {
        (view.with_event(ControlStreamEvent::Connect), poll_next())
    } else {
        (view, StepView::Ask(view.send(rest[0]), PhaseView::Flushing { rest: rest.skip(1) }))
    }
}

/// Sends a periodic ping if one is due, which ends the update.
pub open spec fn pinged(view: ControlView) -> (ControlView, StepView) {
    if view.ping_due() {
        (view, StepView::Ask(view.send(ControlPacket::PeriodicPing), PhaseView::Pinging))
    } else {
        (view, StepView::Done(Ok(())))
    }
}

/// Sends the next packet of collected input; once there is none, pings.
pub open spec fn batched(view: ControlView, rest: Seq<ControlPacket>) -> (ControlView, StepView) {
    if rest.len() == 0 {
        pinged(view)
    } else {
        (view, StepView::Ask(view.send(rest[0]), PhaseView::Batching { rest: rest.skip(1) }))
    }
}

/// How an update goes on after something that the transport noticed.
///
/// Other peers than the host are disconnected, and nothing that they send
/// counts. When there is nothing more, the update asks whether the last peer is
/// gone.
pub open spec fn after_host_event(view: ControlView, event: Option<ControlHostEvent>) -> (
    ControlView,
    StepView,
) {
    match event {
        None => (view, StepView::Ask(HostRequest::CanDiscard, PhaseView::Discarding)),
        Some(ControlHostEvent::Connected { id, .. }) => if id != view.peer {
            (
                view,
                StepView::Ask(
                    HostRequest::DisconnectNow { peer: id, data: 0 },
                    PhaseView::Rejecting,
                ),
            )
        } else {
            flushed(
                ControlView { peer_connected: true, buffered_packets: Seq::empty(), ..view },
                view.buffered_packets,
            )
        },
        Some(ControlHostEvent::Receive { id, packet, .. }) => if id != view.peer {
            (view, poll_next())
        } else if packet is ServerTermination {
            (
                view,
                StepView::Ask(
                    HostRequest::DisconnectNow { peer: view.peer, data: 0 },
                    PhaseView::Terminating { packet },
                ),
            )
        } else {
            (view.with_event(ControlStreamEvent::Packet(packet)), poll_next())
        },
        Some(ControlHostEvent::Disconnected { id }) => if id != view.peer {
            (view, poll_next())
        } else {
            (
                ControlView { peer_connected: false, ..view }.with_event(
                    ControlStreamEvent::Disconnect,
                ),
                poll_next(),
            )
        },
    }
}

/// How an update goes on once it is known whether the last peer is gone.
///
/// If it is, the update succeeds as long as an event tells so that was not
/// taken, and fails after that.
pub open spec fn after_discard(view: ControlView, gone: bool) -> (ControlView, StepView) {
    if gone {
        if view.tells_disconnect() {
            (view, StepView::Done(Ok(())))
        } else {
            (view, StepView::Done(Err(ControlError::NotConnected)))
        }
    } else if view.batch_due() {
        batched(view.batch_sent(), view.batcher.collected())
    } else {
        pinged(view)
    }
}

/// How an update goes on after an answer of the transport.
pub open spec fn resumed(view: ControlView, phase: PhaseView, reply: HostReply) -> (
    ControlView,
    StepView,
) {
    match (phase, reply) {
        (PhaseView::Handling { now }, HostReply::Handled(result)) => match result {
            Ok(()) => (ControlView { last_now: now, ..view }, poll_next()),
            Err(error) => (view, StepView::Done(Err(error))),
        },
        (PhaseView::Polling, HostReply::Event(event)) => after_host_event(view, event),
        (PhaseView::Rejecting, HostReply::Disconnected(_)) => (view, poll_next()),
        (PhaseView::Flushing { rest }, HostReply::Sent(result)) => match result {
            Ok(()) => flushed(view, rest),
            Err(error) => (view, StepView::Done(Err(error))),
        },
        (PhaseView::Terminating { packet }, HostReply::Disconnected(result)) => match result {
            Ok(()) => (view.with_event(ControlStreamEvent::Packet(packet)), poll_next()),
            Err(error) => (view, StepView::Done(Err(error))),
        },
        (PhaseView::Discarding, HostReply::CanDiscard(gone)) => after_discard(view, gone),
        (PhaseView::Batching { rest }, HostReply::Sent(result)) => match result {
            Ok(()) => batched(view, rest),
            Err(error) => (view, StepView::Done(Err(error))),
        },
        (PhaseView::Pinging, HostReply::Sent(result)) => (
            view.after_ping(result),
            StepView::Done(
                match result {
                    Err(error) if !error.says_not_connected() => Err(error),
                    _ => Ok(()),
                },
            ),
        ),
        _ => (view, StepView::Done(Ok(()))),
    }
}

} // verus!
