//! The client's side of the control stream.

use std::collections::VecDeque;

use vstd::prelude::*;

use crate::audio::crypto::AesKey;
use crate::control::host::{
    ConnectRequest, ControlEncryptionMethod, ControlError, ControlHostEvent, ControlPeerId,
    HostReply, HostRequest,
};
use crate::control::input_batcher::{after_input, ClientInputEvent, InputBatcher};
use crate::control::model::{
    after_host_event, answers, batched, flushed, phase_wf, pinged, resumed, version_supported,
    ControlView, PhaseView, StepView, BATCH_INTERVAL, PERIODIC_PING_INTERVAL,
};
use crate::control::packet::ControlPacket;
use crate::control::permissions::{permission_for, ApolloPermissions};
use crate::net::SocketAddr;
use crate::time::{soonest, Instant};
use crate::version::ServerVersion;

verus! {

/// How a control stream is set up.
#[derive(Debug, Clone, Copy)]
pub struct ControlStreamConfig {
    pub server_version: ServerVersion,
    pub addr: SocketAddr,
    pub sunshine_connect_data: Option<u32>,
    pub encryption: Option<(ControlEncryptionMethod, AesKey)>,
    pub apollo_permissions: Option<ApolloPermissions>,
}

#[derive(Debug)]
pub enum ControlStreamEvent {
    /// The stream has successfully connected to the server:
    /// - Packets can now be sent
    Connect,
    /// The stream received a packet.
    Packet(ControlPacket),
    /// The stream got disconnected
    Disconnect,
}

/// How long a packet takes to the host and back.
#[derive(Debug, Clone, Copy, PartialEq, Eq, Structural)]
pub struct EstimatedRttInfo {
    pub rtt_nanos: u64,
    pub rtt_variance_nanos: u64,
}

/// Where an update is. Each phase waits for one answer of the transport.
#[derive(Debug)]
#[allow(inconsistent_fields)]
pub enum UpdatePhase {
    /// Waits until the transport has taken in a datagram or the time.
    Handling { now: Instant },
    /// Waits for the next thing that the transport noticed.
    Polling,
    /// Waits until a stranger is disconnected.
    Rejecting,
    /// Waits until a packet that was buffered is sent; `rest` comes after it.
    Flushing { rest: Vec<ControlPacket> },
    /// Waits until the connection that the host terminated is closed.
    Terminating { packet: ControlPacket },
    /// Waits to hear whether the last peer is gone.
    Discarding,
    /// Waits until collected input is sent; `rest` comes after it.
    Batching { rest: Vec<ControlPacket> },
    /// Waits until a periodic ping is sent.
    Pinging,
}

impl View for UpdatePhase {
    type V = PhaseView;

    open spec fn view(&self) -> PhaseView {
        match *self {
            UpdatePhase::Handling { now } => PhaseView::Handling { now },
            UpdatePhase::Polling => PhaseView::Polling,
            UpdatePhase::Rejecting => PhaseView::Rejecting,
            UpdatePhase::Flushing { rest } => PhaseView::Flushing { rest: rest@ },
            UpdatePhase::Terminating { packet } => PhaseView::Terminating { packet },
            UpdatePhase::Discarding => PhaseView::Discarding,
            UpdatePhase::Batching { rest } => PhaseView::Batching { rest: rest@ },
            UpdatePhase::Pinging => PhaseView::Pinging,
        }
    }
}

/// What comes next in an update.
#[derive(Debug)]
pub enum UpdateStep {
    /// The transport has to be asked; its answer goes to
    /// [`ControlStream::resume`] together with the phase.
    Ask(HostRequest, UpdatePhase),
    /// The update is over.
    Done(Result<(), ControlError>),
}

impl View for UpdateStep {
    type V = StepView;

    open spec fn view(&self) -> StepView {
        match *self {
            UpdateStep::Ask(request, phase) => StepView::Ask(request, phase@),
            UpdateStep::Done(result) => StepView::Done(result),
        }
    }
}

/// What there is to do about periodic pings.
#[derive(Debug)]
pub enum PingStep {
    /// The transport has to be asked to send one; what comes of it goes to
    /// [`ControlStream::ping_sent`].
    Ask(HostRequest),
    /// None is due. The next one must be sent at this time, or never.
    Next(Option<Instant>),
}

/// This is the high level client control stream.
///
/// It does:
/// - automatic input batching using [Self::batch_input] and sending in a predefined interval
/// - regular periodic ping to avoid disconnects
///
/// The transport stays with the caller, who does what the stream asks of it.
#[derive(Debug)]
pub struct ControlStream {
    server_version: ServerVersion,
    apollo_permissions: Option<ApolloPermissions>,
    addr: SocketAddr,
    peer: ControlPeerId,
    peer_connected: bool,
    last_now: Instant,
    last_ping: Option<Instant>,
    buffered_packets: Vec<ControlPacket>,
    last_batch_send: Instant,
    batcher: InputBatcher,
    events: VecDeque<ControlStreamEvent>,
}

impl View for ControlStream {
    type V = ControlView;

    closed spec fn view(&self) -> ControlView {
        ControlView {
            server_version: self.server_version,
            apollo_permissions: self.apollo_permissions,
            addr: self.addr,
            peer: self.peer,
            peer_connected: self.peer_connected,
            last_now: self.last_now,
            last_ping: self.last_ping,
            buffered_packets: self.buffered_packets@,
            last_batch_send: self.last_batch_send,
            batcher: self.batcher@,
            events: self.events@,
        }
    }
}

/// How the transport has to open the connection for a stream, which it does
/// before the stream is made. `packets_known` says whether the packets of this
/// version and encryption are known.
pub fn connect_request(config: &ControlStreamConfig, packets_known: bool) -> (request: Result<
    ConnectRequest,
    ControlError,
>)
    ensures
        request == if version_supported(config.server_version, packets_known) {
            Ok::<ConnectRequest, ControlError>(
                ConnectRequest {
                    addr: config.addr,
                    server_version: config.server_version,
                    sunshine_connect_data: config.sunshine_connect_data,
                    encryption: config.encryption,
                },
            )
        } else {
            Err(ControlError::VersionNotSupported(config.server_version))
        },
{
    if config.server_version.major < 5 {
        // Servers below v5 use tcp and don't have encryption support
        return Err(ControlError::VersionNotSupported(config.server_version));
    }
    if !packets_known {
        return Err(ControlError::VersionNotSupported(config.server_version));
    }
    Ok(
        ConnectRequest {
            addr: config.addr,
            server_version: config.server_version,
            sunshine_connect_data: config.sunshine_connect_data,
            encryption: config.encryption,
        },
    )
}

/// Takes the first packet out of a list that has one.
fn take_first(packets: &mut Vec<ControlPacket>) -> (first: ControlPacket)
    requires
        old(packets)@.len() > 0,
    ensures
        first == old(packets)@[0],
        final(packets)@ == old(packets)@.skip(1),
{
    let first = packets.remove(0);
    assert(packets@ =~= old(packets)@.skip(1));
    first
}

impl ControlStream {
    /// A stream over the connection to `peer` that was opened as
    /// [`connect_request`] says.
    pub fn new(
        now: Instant,
        config: ControlStreamConfig,
        packets_known: bool,
        peer: ControlPeerId,
    ) -> (stream: Result<ControlStream, ControlError>)
        requires
            now.can_add(PERIODIC_PING_INTERVAL as int),
        ensures
            match stream {
                Ok(stream) => {
                    &&& version_supported(config.server_version, packets_known)
                    &&& stream@ == ControlView::initial(now, config, peer)
                    &&& stream@.wf()
                },
                Err(error) => {
                    &&& !version_supported(config.server_version, packets_known)
                    &&& error == ControlError::VersionNotSupported(config.server_version)
                },
            },
    {
        match connect_request(&config, packets_known) {
            Ok(_) => {},
            Err(error) => {
                return Err(error);
            },
        }
        let pings = config.server_version.is_at_least(ServerVersion::new(7, 1, 415, 0));
        let stream = ControlStream {
            server_version: config.server_version,
            apollo_permissions: config.apollo_permissions,
            addr: config.addr,
            peer,
            peer_connected: false,
            last_now: now,
            last_ping: if pings {
                Some(now)
            } else {
                None
            },
            buffered_packets: Vec::new(),
            last_batch_send: now,
            batcher: InputBatcher::default(),
            events: VecDeque::new(),
        };
        assert(stream@ =~= ControlView::initial(now, config, peer));
        Ok(stream)
    }

    /// How long a packet takes to the host and back, given what the transport
    /// measured for the peer.
    pub fn estimated_rtt(&self, measured: Option<EstimatedRttInfo>) -> (rtt: Result<
        EstimatedRttInfo,
        ControlError,
    >)
        ensures
            rtt == match measured {
                Some(measured) => Ok::<EstimatedRttInfo, ControlError>(measured),
                None => Err(ControlError::NotConnected),
            },
    {
        match measured {
            Some(measured) => Ok(measured),
            None => Err(ControlError::NotConnected),
        }
    }

    /// This will intelligently batch or instantly send the input based on if it makes sense to do so.
    ///
    /// What has to be sent at once is handed back as a request.
    pub fn batch_input(&mut self, input: ClientInputEvent) -> (request: Result<
        Option<HostRequest>,
        ControlError,
    >)
        ensures
            match request {
                Ok(request) => {
                    &&& old(self)@.input_fault(input) is None
                    &&& final(self)@ == old(self)@.after_input(input)
                    &&& request == match after_input(old(self)@.batcher, input).1 {
                        Some(packet) => Some(old(self)@.send(packet)),
                        None => None,
                    }
                },
                Err(error) => {
                    &&& old(self)@.input_fault(input) == Some(error)
                    &&& final(self)@ == old(self)@
                },
            },
    {
        match self.check_input_supported(&input) {
            Ok(()) => {},
            Err(error) => {
                return Err(error);
            },
        }
        match self.batcher.batch_input(input) {
            Some(packet) => Ok(Some(self.send_raw(packet))),
            None => Ok(None),
        }
    }

    /// Will send all batched inputs now: hands back the requests that do, in order.
    ///
    /// This is automatically done if you're following the default event loop of this struct.
    pub fn send_batched_inputs_now(&mut self) -> (requests: Vec<HostRequest>)
        ensures
            final(self)@ == old(self)@.batch_sent(),
            requests@ == old(self)@.batcher.collected().map_values(
                |packet: ControlPacket| old(self)@.send(packet),
            ),
    {
        self.last_batch_send = self.last_now;
        let packets = self.batcher.remove_batched_inputs();
        let ghost sent = |packet: ControlPacket| self@.send(packet);
        let ghost collected = packets@;
        let mut requests: Vec<HostRequest> = Vec::new();
        for packet in it: packets
            invariant
                it.seq() == collected,
                sent == (|packet: ControlPacket| self@.send(packet)),
                requests@.len() == it.index(),
                forall|i: int| 0 <= i < requests@.len() ==> requests@[i] == sent(collected[i]),
        {
            requests.push(self.send_raw(packet));
        }
        assert(requests@ =~= collected.map_values(|packet: ControlPacket| old(self)@.send(packet)));
        requests
    }

    /// Whether an input can be sent to this host, and may be.
    fn check_input_supported(&self, input: &ClientInputEvent) -> (supported: Result<
        (),
        ControlError,
    >)
        ensures
            supported == match self@.input_fault(*input) {
                Some(error) => Err::<(), ControlError>(error),
                None => Ok(()),
            },
    {
        if let Some(permissions) = &self.apollo_permissions {
            if !permissions.contains(permission_for(input)) {
                return Err(ControlError::ApolloPermissionDenied);
            }
        }
        match input {
            ClientInputEvent::MouseScrollHorizontal { .. } => {
                if !self.server_version.is_sunshine_like() {
                    Err(ControlError::PacketNotSupported)
                } else {
                    Ok(())
                }
            },
            _ => Ok(()),
        }
    }

    /// The request to close the connection once everything is sent.
    pub fn disconnect(&self, disconnect_data: u32) -> (request: HostRequest)
        ensures
            request == (HostRequest::Disconnect { peer: self@.peer, data: disconnect_data }),
    {
        HostRequest::Disconnect { peer: self.peer, data: disconnect_data }
    }

    /// The question whether the stream can be thrown away.
    pub fn can_discard(&self) -> (request: HostRequest)
        ensures
            request == HostRequest::CanDiscard,
    {
        HostRequest::CanDiscard
    }

    /// The request to send a packet.
    pub fn send_raw(&self, packet: ControlPacket) -> (request: HostRequest)
        ensures
            request == self@.send(packet),
    {
        HostRequest::Send { peer: self.peer, server_version: self.server_version, packet }
    }

    /// The request to send a packet; a forced packet is kept until there is a
    /// connection.
    pub fn send_inner(&mut self, packet: ControlPacket, force_packet: bool) -> (request: Option<
        HostRequest,
    >)
        ensures
            if force_packet && !old(self)@.peer_connected {
                &&& request is None
                &&& final(self)@ == old(self)@.buffering(packet)
            } else {
                &&& request == Some(old(self)@.send(packet))
                &&& final(self)@ == old(self)@
            },
            old(self)@.wf() ==> final(self)@.wf(),
    {
        if force_packet && !self.peer_connected {
            self.buffered_packets.push(packet);
            return None;
        }
        Some(self.send_raw(packet))
    }

    /// Sends the next packet of `rest`, or goes on with the pings.
    fn next_batched(&mut self, rest: Vec<ControlPacket>) -> (step: UpdateStep)
        requires
            old(self)@.wf(),
        ensures
            (final(self)@, step@) == batched(old(self)@, rest@),
    {
        if rest.len() == 0 {
            return self.next_pinged();
        }
        let mut rest = rest;
        let packet = take_first(&mut rest);
        UpdateStep::Ask(self.send_raw(packet), UpdatePhase::Batching { rest })
    }

    /// Sends the next packet of `rest`, or tells that the stream is connected.
    fn next_flushed(&mut self, rest: Vec<ControlPacket>) -> (step: UpdateStep)
        ensures
            (final(self)@, step@) == flushed(old(self)@, rest@),
    {
        if rest.len() == 0 {
            self.events.push_back(ControlStreamEvent::Connect);
            return UpdateStep::Ask(HostRequest::PollEvent, UpdatePhase::Polling);
        }
        let mut rest = rest;
        let packet = take_first(&mut rest);
        UpdateStep::Ask(self.send_raw(packet), UpdatePhase::Flushing { rest })
    }

    /// Sends collected input if it is time to.
    fn do_batching(&mut self) -> (step: UpdateStep)
        requires
            old(self)@.wf(),
        ensures
            (final(self)@, step@) == if old(self)@.batch_due() {
                batched(old(self)@.batch_sent(), old(self)@.batcher.collected())
            } else {
                pinged(old(self)@)
            },
    {
        if !self.batcher.is_dirty() {
            return self.next_pinged();
        }
        let due = self.last_batch_send.plus(BATCH_INTERVAL);
        if self.last_now.is_before(due) {
            return self.next_pinged();
        }
        self.last_batch_send = self.last_now;
        let packets = self.batcher.remove_batched_inputs();
        assert(self@ =~= old(self)@.batch_sent());
        self.next_batched(packets)
    }

    /// Sends a periodic ping if it is time to.
    fn next_pinged(&mut self) -> (step: UpdateStep)
        requires
            old(self)@.wf(),
        ensures
            (final(self)@, step@) == pinged(old(self)@),
    {
        match self.do_ping() {
            PingStep::Ask(request) => UpdateStep::Ask(request, UpdatePhase::Pinging),
            PingStep::Next(_) => UpdateStep::Done(Ok(())),
        }
    }

    /// Asks for a periodic ping to be sent, if it is time to. Otherwise returns
    /// the time when the next ping must be sent, or [None] if the host wants no
    /// pings.
    pub fn do_ping(&self) -> (step: PingStep)
        requires
            self@.wf(),
        ensures
            step == if self@.ping_due() {
                PingStep::Ask(self@.send(ControlPacket::PeriodicPing))
            } else {
                PingStep::Next(self@.next_ping())
            },
    {
        match self.last_ping {
            // The server doesn't support periodic pings
            None => PingStep::Next(None),
            Some(last_ping) => {
                let due = last_ping.plus(PERIODIC_PING_INTERVAL);
                if self.last_now.is_before(due) {
                    return PingStep::Next(Some(due));
                }
                PingStep::Ask(self.send_raw(ControlPacket::PeriodicPing))
            },
        }
    }

    /// Takes in what came of sending a periodic ping, and returns the time when
    /// the next ping must be sent. That there is no connection is no error: the
    /// ping is then still due.
    pub fn ping_sent(&mut self, sent: Result<(), ControlError>) -> (next: Result<
        Option<Instant>,
        ControlError,
    >)
        requires
            old(self)@.wf(),
        ensures
            final(self)@.wf(),
            final(self)@ == old(self)@.after_ping(sent),
            next == match sent {
                Err(error) if !error.says_not_connected() => Err::<
                    Option<Instant>,
                    ControlError,
                >(error),
                _ => Ok(final(self)@.next_ping()),
            },
    {
        match sent {
            Ok(()) => {
                self.last_ping = Some(self.last_now);
            },
            Err(error) => {
                if !error.is_not_connected() {
                    return Err(error);
                }
                // We are not connected yet -> we cannot send a ping
            },
        }
        Ok(self.next_ping())
    }

    /// When the next periodic ping must be sent, if the host wants any.
    pub fn next_ping(&self) -> (next: Option<Instant>)
        requires
            self@.wf(),
        ensures
            next == self@.next_ping(),
    {
        match self.last_ping {
            Some(last_ping) => Some(last_ping.plus(PERIODIC_PING_INTERVAL)),
            None => None,
        }
    }

    /// Whether an event that says that the connection is gone waits to be
    /// taken.
    fn tells_disconnect(&self) -> (tells: bool)
        ensures
            tells == self@.tells_disconnect(),
    {
        let mut i: usize = 0;
        while i < self.events.len()
            invariant
                i <= self.events@.len(),
                forall|j: int| 0 <= j < i ==> !(self.events@[j] is Disconnect),
            decreases self.events@.len() - i,
        {
            if let ControlStreamEvent::Disconnect = &self.events[i] {
                assert(self@.events[i as int] is Disconnect);
                return true;
            }
            i = i + 1;
        }
        false
    }

    /// Takes in something that the transport noticed.
    fn handle_host_event(&mut self, event: Option<ControlHostEvent>) -> (step: UpdateStep)
        ensures
            (final(self)@, step@) == after_host_event(old(self)@, event),
    {
        let event = match event {
            Some(event) => event,
            None => {
                return UpdateStep::Ask(HostRequest::CanDiscard, UpdatePhase::Discarding);
            },
        };
        match event {
            ControlHostEvent::Connected { id, sunshine_connect_data: _ } => {
                if id != self.peer {
                    // Nobody should connect to this peer, but if they do just instantly disconnect them
                    return UpdateStep::Ask(
                        HostRequest::DisconnectNow { peer: id, data: 0 },
                        UpdatePhase::Rejecting,
                    );
                }
                self.peer_connected = true;
                // Send all buffered packets
                let mut packets: Vec<ControlPacket> = Vec::new();
                std::mem::swap(&mut packets, &mut self.buffered_packets);
                assert(self@ =~= (ControlView {
                    peer_connected: true,
                    buffered_packets: Seq::empty(),
                    ..old(self)@
                }));
                self.next_flushed(packets)
            },
            ControlHostEvent::Receive { id, channel_id: _, packet } => {
                if id != self.peer {
                    // ignore other peers
                    return UpdateStep::Ask(HostRequest::PollEvent, UpdatePhase::Polling);
                }
                if let ControlPacket::ServerTermination { .. } = &packet {
                    // Disconnect instanly:
                    // We used to wait for a ENET_EVENT_TYPE_DISCONNECT event, but since
                    // GFE 3.20.3.63 we don't get one for 10 seconds after we first get
                    // this termination message. The termination message should be reliable
                    // enough to end the stream now, rather than waiting for an explicit
                    // disconnect. The server will also not acknowledge our disconnect
                    // message once it sends this message, so we mark the peer as fully
                    // disconnected now to avoid delays waiting for an ack that will
                    // never arrive.
                    return UpdateStep::Ask(
                        HostRequest::DisconnectNow { peer: self.peer, data: 0 },
                        UpdatePhase::Terminating { packet },
                    );
                }
                self.events.push_back(ControlStreamEvent::Packet(packet));
                UpdateStep::Ask(HostRequest::PollEvent, UpdatePhase::Polling)
            },
            ControlHostEvent::Disconnected { id } => {
                if id != self.peer {
                    // ignore other peers
                    return UpdateStep::Ask(HostRequest::PollEvent, UpdatePhase::Polling);
                }
                self.peer_connected = false;
                self.events.push_back(ControlStreamEvent::Disconnect);
                UpdateStep::Ask(HostRequest::PollEvent, UpdatePhase::Polling)
            },
        }
    }

    /// Goes on with an update after the transport answered.
    ///
    /// The transport removes the last peer before it tells that the peer is
    /// disconnected. So everything that it noticed is taken in first: the
    /// update that brings the news still succeeds, and later ones fail.
    pub fn resume(&mut self, phase: UpdatePhase, reply: HostReply) -> (step: UpdateStep)
        requires
            old(self)@.wf(),
            phase_wf(phase@),
            answers(phase@, reply),
        ensures
            (final(self)@, step@) == resumed(old(self)@, phase@, reply),
            final(self)@.wf(),
            step@ matches StepView::Ask(_, next) ==> phase_wf(next),
    {
        match (phase, reply) {
            (UpdatePhase::Handling { now }, HostReply::Handled(result)) => match result {
                Ok(()) => {
                    self.last_now = now;
                    UpdateStep::Ask(HostRequest::PollEvent, UpdatePhase::Polling)
                },
                Err(error) => UpdateStep::Done(Err(error)),
            },
            (UpdatePhase::Polling, HostReply::Event(event)) => self.handle_host_event(event),
            (UpdatePhase::Rejecting, HostReply::Disconnected(_)) => {
                UpdateStep::Ask(HostRequest::PollEvent, UpdatePhase::Polling)
            },
            (UpdatePhase::Flushing { rest }, HostReply::Sent(result)) => match result {
                Ok(()) => self.next_flushed(rest),
                Err(error) => UpdateStep::Done(Err(error)),
            },
            (UpdatePhase::Terminating { packet }, HostReply::Disconnected(result)) => match result {
                Ok(()) => {
                    self.events.push_back(ControlStreamEvent::Packet(packet));
                    UpdateStep::Ask(HostRequest::PollEvent, UpdatePhase::Polling)
                },
                Err(error) => UpdateStep::Done(Err(error)),
            },
            (UpdatePhase::Discarding, HostReply::CanDiscard(gone)) => {
                if gone {
                    if self.tells_disconnect() {
                        UpdateStep::Done(Ok(()))
                    } else {
                        UpdateStep::Done(Err(ControlError::NotConnected))
                    }
                } else {
                    self.do_batching()
                }
            },
            (UpdatePhase::Batching { rest }, HostReply::Sent(result)) => match result {
                Ok(()) => self.next_batched(rest),
                Err(error) => UpdateStep::Done(Err(error)),
            },
            (UpdatePhase::Pinging, HostReply::Sent(result)) => match self.ping_sent(result) {
                Ok(_) => UpdateStep::Done(Ok(())),
                Err(error) => UpdateStep::Done(Err(error)),
            },
            _ => UpdateStep::Done(Ok(())),
        }
    }

    /// Starts an update with a datagram that arrived, unless it is not from the
    /// host of this stream.
    pub fn handle_receive(&self, now: Instant, addr: SocketAddr) -> (step: UpdateStep)
        ensures
            step@ == if self@.addr == addr {
                StepView::Ask(HostRequest::HandleReceive { now }, PhaseView::Handling { now })
            } else {
                StepView::Done(Ok(()))
            },
    {
        if self.addr != addr {
            return UpdateStep::Done(Ok(()));
        }
        UpdateStep::Ask(HostRequest::HandleReceive { now }, UpdatePhase::Handling { now })
    }

    /// Starts an update with the time.
    pub fn handle_timeout(&self, now: Instant) -> (step: UpdateStep)
        ensures
            step@ == StepView::Ask(
                HostRequest::HandleTimeout { now },
                PhaseView::Handling { now },
            ),
    {
        UpdateStep::Ask(HostRequest::HandleTimeout { now }, UpdatePhase::Handling { now })
    }

    /// When the stream next has to be told the time, given when the transport
    /// has to be.
    pub fn poll_timeout(&self, host_timeout: Option<Instant>) -> (deadline: Option<Instant>)
        requires
            self@.wf(),
        ensures
            deadline == self@.deadline(host_timeout),
    {
        let batch_timeout = if self.batcher.is_dirty() {
            Some(self.last_batch_send.plus(BATCH_INTERVAL))
        } else {
            None
        };
        let last_ping = match self.last_ping {
            Some(last_ping) => last_ping,
            None => self.last_now,
        };
        let ping_timeout = Some(last_ping.plus(PERIODIC_PING_INTERVAL));
        soonest(soonest(batch_timeout, ping_timeout), host_timeout)
    }

    /// Takes the first event that was not taken.
    pub fn poll_event(&mut self) -> (event: Option<ControlStreamEvent>)
        ensures
            if old(self)@.events.len() == 0 {
                &&& event is None
                &&& final(self)@ == old(self)@
            } else {
                &&& event == Some(old(self)@.events[0])
                &&& final(self)@ == (ControlView {
                    events: old(self)@.events.skip(1),
                    ..old(self)@
                })
            },
    {
        let event = self.events.pop_front();
        proof {
            if old(self)@.events.len() > 0 {
                assert(self.events@ =~= old(self)@.events.skip(1));
            }
        }
        event
    }
}

} // verus!
