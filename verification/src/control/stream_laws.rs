//! What each call of a control stream comes to.

use vstd::prelude::*;

use crate::control::host::{
    ConnectRequest, ControlError, ControlHostEvent, ControlPeerId, EnetError, HostReply,
    HostRequest, PeerSendError,
};
use crate::control::input_batcher::{BatcherView, ClientInputEvent, InputBatcher};
use crate::control::model::ControlView;
use crate::control::packet::ControlPacket;
use crate::control::permissions::{permission_for, ApolloPermissions};
use crate::control::stream::{
    connect_request, ControlStream, ControlStreamConfig, ControlStreamEvent, EstimatedRttInfo,
    PingStep, UpdatePhase, UpdateStep,
};
use crate::net::SocketAddr;
use crate::time::Instant;
use crate::version::ServerVersion;

verus! {

/// A packet of the host that does not end the stream becomes an event after
/// those that wait already, and the update goes on to the next thing that the
/// transport noticed.
pub proof fn law_received_packet_becomes_an_event(
    stream: &mut ControlStream,
    channel_id: u8,
    packet: ControlPacket,
    step: UpdateStep,
)
    requires
        call_ensures(
            ControlStream::resume,
            (
                stream,
                UpdatePhase::Polling,
                HostReply::Event(
                    Some(
                        ControlHostEvent::Receive { id: old(stream)@.peer, channel_id, packet },
                    ),
                ),
            ),
            step,
        ),
        !(packet is ServerTermination),
    ensures
        final(stream)@ == (ControlView {
            events: old(stream)@.events.push(ControlStreamEvent::Packet(packet)),
            ..old(stream)@
        }),
        step == UpdateStep::Ask(HostRequest::PollEvent, UpdatePhase::Polling),
{
}

/// What the host sent is what the caller gets: a received packet is what is
/// taken next, if no event waited before it.
pub proof fn law_received_packet_reaches_the_caller(
    stream: &mut ControlStream,
    channel_id: u8,
    packet: ControlPacket,
    step: UpdateStep,
    taking: &mut ControlStream,
    event: Option<ControlStreamEvent>,
)
    requires
        call_ensures(
            ControlStream::resume,
            (
                stream,
                UpdatePhase::Polling,
                HostReply::Event(
                    Some(
                        ControlHostEvent::Receive { id: old(stream)@.peer, channel_id, packet },
                    ),
                ),
            ),
            step,
        ),
        !(packet is ServerTermination),
        old(stream)@.events.len() == 0,
        *old(taking) == *final(stream),
        call_ensures(ControlStream::poll_event, (taking,), event),
    ensures
        event == Some(ControlStreamEvent::Packet(packet)),
        final(taking)@ == old(stream)@,
{
    law_received_packet_becomes_an_event(stream, channel_id, packet, step);
    assert(final(taking)@.events =~= old(stream)@.events);
}

/// A packet with which the host ends the stream closes the connection at once,
/// and becomes an event as soon as that is done. If it cannot be done, the
/// update fails for that reason.
pub proof fn law_termination_closes_and_is_told(
    stream: &mut ControlStream,
    channel_id: u8,
    packet: ControlPacket,
    step: UpdateStep,
    closing: &mut ControlStream,
    closed: Result<(), ControlError>,
    next: UpdateStep,
)
    requires
        call_ensures(
            ControlStream::resume,
            (
                stream,
                UpdatePhase::Polling,
                HostReply::Event(
                    Some(
                        ControlHostEvent::Receive { id: old(stream)@.peer, channel_id, packet },
                    ),
                ),
            ),
            step,
        ),
        packet is ServerTermination,
        *old(closing) == *final(stream),
        call_ensures(
            ControlStream::resume,
            (closing, UpdatePhase::Terminating { packet }, HostReply::Disconnected(closed)),
            next,
        ),
    ensures
        final(stream)@ == old(stream)@,
        step == UpdateStep::Ask(
            HostRequest::DisconnectNow { peer: old(stream)@.peer, data: 0 },
            UpdatePhase::Terminating { packet },
        ),
        closed is Ok ==> {
            &&& final(closing)@ == (ControlView {
                events: old(stream)@.events.push(ControlStreamEvent::Packet(packet)),
                ..old(stream)@
            })
            &&& next == UpdateStep::Ask(HostRequest::PollEvent, UpdatePhase::Polling)
        },
        closed matches Err(error) ==> {
            &&& final(closing)@ == old(stream)@
            &&& next == UpdateStep::Done(Err(error))
        },
{
}

/// The end of the connection to the host becomes an event.
pub proof fn law_disconnect_becomes_an_event(stream: &mut ControlStream, step: UpdateStep)
    requires
        call_ensures(
            ControlStream::resume,
            (
                stream,
                UpdatePhase::Polling,
                HostReply::Event(Some(ControlHostEvent::Disconnected { id: old(stream)@.peer })),
            ),
            step,
        ),
    ensures
        final(stream)@ == (ControlView {
            peer_connected: false,
            events: old(stream)@.events.push(ControlStreamEvent::Disconnect),
            ..old(stream)@
        }),
        step == UpdateStep::Ask(HostRequest::PollEvent, UpdatePhase::Polling),
{
}

/// Who is not the host of the stream is disconnected at once when connecting,
/// and otherwise ignored; the stream stays as it is.
pub proof fn law_strangers_change_nothing(
    stream: &mut ControlStream,
    event: ControlHostEvent,
    step: UpdateStep,
)
    requires
        call_ensures(
            ControlStream::resume,
            (stream, UpdatePhase::Polling, HostReply::Event(Some(event))),
            step,
        ),
        match event {
            ControlHostEvent::Connected { id, .. } => id != old(stream)@.peer,
            ControlHostEvent::Receive { id, .. } => id != old(stream)@.peer,
            ControlHostEvent::Disconnected { id } => id != old(stream)@.peer,
        },
    ensures
        final(stream)@ == old(stream)@,
        step == match event {
            ControlHostEvent::Connected { id, .. } => UpdateStep::Ask(
                HostRequest::DisconnectNow { peer: id, data: 0 },
                UpdatePhase::Rejecting,
            ),
            _ => UpdateStep::Ask(HostRequest::PollEvent, UpdatePhase::Polling),
        },
{
}

/// Once a stranger is disconnected, or could not be, the update goes on.
pub proof fn law_update_goes_on_after_a_stranger(
    stream: &mut ControlStream,
    result: Result<(), ControlError>,
    step: UpdateStep,
)
    requires
        call_ensures(
            ControlStream::resume,
            (stream, UpdatePhase::Rejecting, HostReply::Disconnected(result)),
            step,
        ),
    ensures
        final(stream)@ == old(stream)@,
        step == UpdateStep::Ask(HostRequest::PollEvent, UpdatePhase::Polling),
{
}

/// What is asked for while packets that waited are sent: the first of them that
/// is left, or, if none is, the next thing that the transport noticed.
pub open spec fn sends_next(view: ControlView, rest: Seq<ControlPacket>, step: UpdateStep) -> bool {
    if rest.len() == 0 {
        step == UpdateStep::Ask(HostRequest::PollEvent, UpdatePhase::Polling)
    } else {
        step matches UpdateStep::Ask(request, UpdatePhase::Flushing { rest: left }) && request == (
        HostRequest::Send {
            peer: view.peer,
            server_version: view.server_version,
            packet: rest[0],
        }) && left@ == rest.skip(1)
    }
}

/// Once the host is connected, the packets that waited are sent one by one, and
/// then the connection becomes an event.
pub proof fn law_connecting_sends_what_waited(
    stream: &mut ControlStream,
    sunshine_connect_data: u32,
    step: UpdateStep,
)
    requires
        call_ensures(
            ControlStream::resume,
            (
                stream,
                UpdatePhase::Polling,
                HostReply::Event(
                    Some(
                        ControlHostEvent::Connected { id: old(stream)@.peer, sunshine_connect_data },
                    ),
                ),
            ),
            step,
        ),
    ensures
        sends_next(old(stream)@, old(stream)@.buffered_packets, step),
        final(stream)@ == (ControlView {
            peer_connected: true,
            buffered_packets: Seq::empty(),
            events: if old(stream)@.buffered_packets.len() == 0 {
                old(stream)@.events.push(ControlStreamEvent::Connect)
            } else {
                old(stream)@.events
            },
            ..old(stream)@
        }),
{
}

/// A packet that waited and was sent is followed by the next one, and the last
/// one by the event that tells of the connection. If one cannot be sent, the
/// update fails for that reason.
pub proof fn law_waiting_packets_follow_each_other(
    stream: &mut ControlStream,
    rest: Vec<ControlPacket>,
    sent: Result<(), ControlError>,
    step: UpdateStep,
)
    requires
        call_ensures(
            ControlStream::resume,
            (stream, UpdatePhase::Flushing { rest }, HostReply::Sent(sent)),
            step,
        ),
    ensures
        sent is Ok ==> {
            &&& sends_next(old(stream)@, rest@, step)
            &&& final(stream)@ == (ControlView {
                events: if rest@.len() == 0 {
                    old(stream)@.events.push(ControlStreamEvent::Connect)
                } else {
                    old(stream)@.events
                },
                ..old(stream)@
            })
        },
        sent matches Err(error) ==> {
            &&& step == UpdateStep::Done(Err(error))
            &&& final(stream)@ == old(stream)@
        },
{
}

/// An update starts with the transport taking in the datagram or the time; a
/// datagram that is not from the host is not handed on.
pub proof fn law_update_starts_with_the_transport(
    stream: &ControlStream,
    now: Instant,
    addr: SocketAddr,
    received: UpdateStep,
    timed_out: UpdateStep,
)
    requires
        call_ensures(ControlStream::handle_receive, (stream, now, addr), received),
        call_ensures(ControlStream::handle_timeout, (stream, now), timed_out),
    ensures
        addr == stream@.addr ==> received == UpdateStep::Ask(
            HostRequest::HandleReceive { now },
            UpdatePhase::Handling { now },
        ),
        addr != stream@.addr ==> received == UpdateStep::Done(Ok(())),
        timed_out == UpdateStep::Ask(
            HostRequest::HandleTimeout { now },
            UpdatePhase::Handling { now },
        ),
{
}

/// Once the transport has taken it in, the stream knows the time and asks what
/// was noticed. If the transport fails, so does the update.
pub proof fn law_time_is_taken_in(
    stream: &mut ControlStream,
    now: Instant,
    handled: Result<(), ControlError>,
    step: UpdateStep,
)
    requires
        call_ensures(
            ControlStream::resume,
            (stream, UpdatePhase::Handling { now }, HostReply::Handled(handled)),
            step,
        ),
    ensures
        handled is Ok ==> {
            &&& final(stream)@ == (ControlView { last_now: now, ..old(stream)@ })
            &&& step == UpdateStep::Ask(HostRequest::PollEvent, UpdatePhase::Polling)
        },
        handled matches Err(error) ==> {
            &&& final(stream)@ == old(stream)@
            &&& step == UpdateStep::Done(Err(error))
        },
{
}

/// When nothing more was noticed, the stream asks whether the last peer is
/// gone.
pub proof fn law_end_is_asked_for_last(stream: &mut ControlStream, step: UpdateStep)
    requires
        call_ensures(
            ControlStream::resume,
            (stream, UpdatePhase::Polling, HostReply::Event(None)),
            step,
        ),
    ensures
        final(stream)@ == old(stream)@,
        step == UpdateStep::Ask(HostRequest::CanDiscard, UpdatePhase::Discarding),
{
}

/// When the last peer is gone, the update is over: well as long as the event
/// that tells so waits, and for want of a connection after that.
pub proof fn law_update_ends_without_a_peer(stream: &mut ControlStream, step: UpdateStep)
    requires
        call_ensures(
            ControlStream::resume,
            (stream, UpdatePhase::Discarding, HostReply::CanDiscard(true)),
            step,
        ),
    ensures
        final(stream)@ == old(stream)@,
        old(stream)@.events.contains(ControlStreamEvent::Disconnect) ==> step == UpdateStep::Done(
            Ok(()),
        ),
        !old(stream)@.events.contains(ControlStreamEvent::Disconnect) ==> step == UpdateStep::Done(
            Err(ControlError::NotConnected),
        ),
{
    let events = old(stream)@.events;
    if events.contains(ControlStreamEvent::Disconnect) {
        let i = choose|i: int|
            0 <= i < events.len() && events[i] == ControlStreamEvent::Disconnect;
        assert(events[i] is Disconnect);
    }
    if old(stream)@.tells_disconnect() {
        let i = choose|i: int| 0 <= i < events.len() && events[i] is Disconnect;
        assert(events[i] == ControlStreamEvent::Disconnect);
    }
}

/// Whether a movement was collected.
pub open spec fn has_collected(view: BatcherView) -> bool {
    ||| view.mouse_delta_x != 0
    ||| view.mouse_delta_y != 0
    ||| view.mouse_absolute_reference_width != 0
    ||| view.mouse_absolute_reference_height != 0
    ||| view.mouse_scroll_x != 0
    ||| view.mouse_scroll_y != 0
}

/// Whether a tenth of a second has passed since the last periodic ping.
pub open spec fn ping_is_late(view: ControlView) -> bool {
    view.last_ping matches Some(last_ping) && view.last_now.nanos >= last_ping.nanos + 100_000_000
}

/// What the end of an update is: a periodic ping if a tenth of a second has
/// passed since the last one, and nothing more otherwise.
pub open spec fn pings_or_ends(view: ControlView, step: UpdateStep) -> bool {
    step == if ping_is_late(view) {
        UpdateStep::Ask(
            HostRequest::Send {
                peer: view.peer,
                server_version: view.server_version,
                packet: ControlPacket::PeriodicPing,
            },
            UpdatePhase::Pinging,
        )
    } else {
        UpdateStep::Done(Ok(()))
    }
}

/// As long as a peer is there, what was collected is sent if a millisecond has
/// passed since the last time. `taken` is what a batcher that holds the same
/// gives out.
pub proof fn law_collected_input_is_sent(
    stream: &mut ControlStream,
    step: UpdateStep,
    batcher: &mut InputBatcher,
    taken: Vec<ControlPacket>,
)
    requires
        call_ensures(
            ControlStream::resume,
            (stream, UpdatePhase::Discarding, HostReply::CanDiscard(false)),
            step,
        ),
        old(batcher)@ == old(stream)@.batcher,
        call_ensures(InputBatcher::remove_batched_inputs, (batcher,), taken),
    ensures
        ({
            let view = old(stream)@;
            if has_collected(view.batcher) && view.last_batch_send.nanos + 1_000_000
                <= view.last_now.nanos {
                &&& taken@.len() > 0
                &&& step matches UpdateStep::Ask(request, UpdatePhase::Batching { rest })
                &&& request == (HostRequest::Send {
                    peer: view.peer,
                    server_version: view.server_version,
                    packet: taken@[0],
                })
                &&& rest@ == taken@.skip(1)
                &&& final(stream)@ == (ControlView {
                    last_batch_send: view.last_now,
                    batcher: final(batcher)@,
                    ..view
                })
            } else {
                &&& pings_or_ends(view, step)
                &&& final(stream)@ == view
            }
        }),
{
}

/// A packet of collected input that was sent is followed by the next one, and
/// the last one by the end of the update. If one cannot be sent, the update
/// fails for that reason.
pub proof fn law_collected_packets_follow_each_other(
    stream: &mut ControlStream,
    rest: Vec<ControlPacket>,
    sent: Result<(), ControlError>,
    step: UpdateStep,
)
    requires
        call_ensures(
            ControlStream::resume,
            (stream, UpdatePhase::Batching { rest }, HostReply::Sent(sent)),
            step,
        ),
    ensures
        final(stream)@ == old(stream)@,
        sent matches Err(error) ==> step == UpdateStep::Done(Err(error)),
        sent is Ok && rest@.len() == 0 ==> pings_or_ends(old(stream)@, step),
        sent is Ok && rest@.len() > 0 ==> {
            &&& step matches UpdateStep::Ask(request, UpdatePhase::Batching { rest: left })
            &&& request == (HostRequest::Send {
                peer: old(stream)@.peer,
                server_version: old(stream)@.server_version,
                packet: rest@[0],
            })
            &&& left@ == rest@.skip(1)
        },
{
}

/// Whether an error says only that there is no connection.
pub open spec fn is_want_of_connection(error: ControlError) -> bool {
    ||| error is NotConnected
    ||| error matches ControlError::Enet(EnetError::PeerSendError(PeerSendError::NotConnected))
}

/// A periodic ping that was sent ends the update, and the next one is counted
/// from it. That there is no connection is no error, and the ping stays due; any
/// other reason is one.
pub proof fn law_ping_ends_the_update(
    stream: &mut ControlStream,
    sent: Result<(), ControlError>,
    step: UpdateStep,
)
    requires
        call_ensures(
            ControlStream::resume,
            (stream, UpdatePhase::Pinging, HostReply::Sent(sent)),
            step,
        ),
    ensures
        sent is Ok ==> {
            &&& final(stream)@ == (ControlView {
                last_ping: Some(old(stream)@.last_now),
                ..old(stream)@
            })
            &&& step == UpdateStep::Done(Ok(()))
        },
        sent matches Err(error) ==> {
            &&& final(stream)@ == old(stream)@
            &&& step == UpdateStep::Done(
                if is_want_of_connection(error) {
                    Ok(())
                } else {
                    Err(error)
                },
            )
        },
{
}

/// Only these two errors say that there is no connection.
pub proof fn law_want_of_connection(error: ControlError, not_connected: bool)
    requires
        call_ensures(ControlError::is_not_connected, (&error,), not_connected),
    ensures
        not_connected == is_want_of_connection(error),
{
}

/// The same holds of pings that are asked for by themselves: one is due a tenth
/// of a second after the last one, and a host that wants none gets none.
pub proof fn law_pings_are_a_tenth_of_a_second_apart(
    stream: &ControlStream,
    step: PingStep,
    next: Option<Instant>,
)
    requires
        stream@.wf(),
        call_ensures(ControlStream::do_ping, (stream,), step),
        call_ensures(ControlStream::next_ping, (stream,), next),
    ensures
        next is Some == stream@.last_ping is Some,
        next matches Some(next) ==> next.nanos == stream@.last_ping->0.nanos + 100_000_000,
        step == if ping_is_late(stream@) {
            PingStep::Ask(
                HostRequest::Send {
                    peer: stream@.peer,
                    server_version: stream@.server_version,
                    packet: ControlPacket::PeriodicPing,
                },
            )
        } else {
            PingStep::Next(next)
        },
{
}

/// What came of sending a periodic ping by itself.
pub proof fn law_ping_that_was_sent_puts_off_the_next(
    stream: &mut ControlStream,
    sent: Result<(), ControlError>,
    next: Result<Option<Instant>, ControlError>,
)
    requires
        old(stream)@.wf(),
        call_ensures(ControlStream::ping_sent, (stream, sent), next),
    ensures
        sent is Ok ==> {
            &&& final(stream)@ == (ControlView {
                last_ping: Some(old(stream)@.last_now),
                ..old(stream)@
            })
            &&& next matches Ok(Some(next)) && next.nanos == old(stream)@.last_now.nanos
                + 100_000_000
        },
        sent matches Err(error) ==> {
            &&& final(stream)@ == old(stream)@
            &&& !is_want_of_connection(error) ==> next == Err::<Option<Instant>, ControlError>(
                error,
            )
            &&& is_want_of_connection(error) ==> match old(stream)@.last_ping {
                Some(last_ping) => next matches Ok(Some(next)) && next.nanos == last_ping.nanos
                    + 100_000_000,
                None => next == Ok::<Option<Instant>, ControlError>(None),
            }
        },
{
}

/// A stream has to be told the time when the first of these is due: collected
/// input a millisecond after the last send, the next ping a tenth of a second
/// after the last one or after now, and what the transport has to do.
pub proof fn law_deadline_is_the_first_that_is_due(
    stream: &ControlStream,
    host_timeout: Option<Instant>,
    deadline: Option<Instant>,
)
    requires
        stream@.wf(),
        call_ensures(ControlStream::poll_timeout, (stream, host_timeout), deadline),
    ensures
        ({
            let batch = stream@.last_batch_send.nanos + 1_000_000;
            let ping = match stream@.last_ping {
                Some(last_ping) => last_ping.nanos,
                None => stream@.last_now.nanos,
            } + 100_000_000;
            &&& deadline matches Some(deadline)
            &&& deadline.nanos <= ping
            &&& has_collected(stream@.batcher) ==> deadline.nanos <= batch
            &&& host_timeout matches Some(host) ==> deadline.nanos <= host.nanos
            &&& {
                ||| deadline.nanos == ping
                ||| has_collected(stream@.batcher) && deadline.nanos == batch
                ||| host_timeout == Some(deadline)
            }
        }),
{
}

/// The bit of the permission that an input needs: the ninth for controllers, and
/// then touches, pens, the mouse and keys.
pub open spec fn may_send(permissions: ApolloPermissions, input: ClientInputEvent) -> bool {
    match input {
        ClientInputEvent::ControllerConnect { .. } => permissions.0 / 0x100 % 2 == 1,
        ClientInputEvent::ControllerState { .. } => permissions.0 / 0x100 % 2 == 1,
        ClientInputEvent::ControllerDisconnect { .. } => permissions.0 / 0x100 % 2 == 1,
        ClientInputEvent::Touch { .. } => permissions.0 / 0x200 % 2 == 1,
        ClientInputEvent::Pen { .. } => permissions.0 / 0x400 % 2 == 1,
        ClientInputEvent::MouseMoveRelative { .. } => permissions.0 / 0x800 % 2 == 1,
        ClientInputEvent::MouseMoveAbsolute { .. } => permissions.0 / 0x800 % 2 == 1,
        ClientInputEvent::MouseButton { .. } => permissions.0 / 0x800 % 2 == 1,
        ClientInputEvent::MouseScrollVertical { .. } => permissions.0 / 0x800 % 2 == 1,
        ClientInputEvent::MouseScrollHorizontal { .. } => permissions.0 / 0x800 % 2 == 1,
        ClientInputEvent::Keyboard { .. } => permissions.0 / 0x1000 % 2 == 1,
    }
}

/// Permissions are held together exactly if each is held; none at all always
/// is.
pub proof fn law_permissions_are_held_together(
    permissions: ApolloPermissions,
    a: u32,
    b: u32,
    has_a: bool,
    has_b: bool,
    has_both: bool,
    has_none: bool,
    has_own: bool,
)
    requires
        call_ensures(ApolloPermissions::contains, (&permissions, a), has_a),
        call_ensures(ApolloPermissions::contains, (&permissions, b), has_b),
        call_ensures(ApolloPermissions::contains, (&permissions, a | b), has_both),
        call_ensures(ApolloPermissions::contains, (&permissions, 0u32), has_none),
        call_ensures(ApolloPermissions::contains, (&permissions, permissions.0), has_own),
    ensures
        has_both == (has_a && has_b),
        has_none,
        has_own,
        a & permissions.0 == 0 && a != 0 ==> !has_a,
{
    let held = permissions.0;
    assert((held & (a | b) == (a | b)) == (held & a == a && held & b == b)) by (bit_vector);
    assert(held & 0 == 0) by (bit_vector);
    assert(held & held == held) by (bit_vector);
    assert(a & held == held & a) by (bit_vector);
}

/// Each input needs the permission for its device.
pub proof fn law_inputs_need_the_permission_of_their_device(
    input: ClientInputEvent,
    permission: u32,
)
    requires
        call_ensures(permission_for, (&input,), permission),
    ensures
        permission == match input {
            ClientInputEvent::ControllerConnect { .. } => 0x100u32,
            ClientInputEvent::ControllerState { .. } => 0x100,
            ClientInputEvent::ControllerDisconnect { .. } => 0x100,
            ClientInputEvent::Touch { .. } => 0x200,
            ClientInputEvent::Pen { .. } => 0x400,
            ClientInputEvent::Keyboard { .. } => 0x1000,
            _ => 0x800,
        },
{
}

/// An input is refused if the host has permissions and the client lacks the one
/// that the input needs, or if it scrolls sideways and the host is not derived
/// from Sunshine. Otherwise it does what it does to a batcher, and what has to
/// be sent at once is handed to the transport for the host.
pub proof fn law_input_goes_to_the_host(
    stream: &mut ControlStream,
    input: ClientInputEvent,
    request: Result<Option<HostRequest>, ControlError>,
    batcher: &mut InputBatcher,
    at_once: Option<ControlPacket>,
)
    requires
        call_ensures(ControlStream::batch_input, (stream, input), request),
        old(batcher)@ == old(stream)@.batcher,
        call_ensures(InputBatcher::batch_input, (batcher, input), at_once),
    ensures
        ({
            let view = old(stream)@;
            let denied = view.apollo_permissions matches Some(permissions) && !may_send(
                permissions,
                input,
            );
            let unknown = input is MouseScrollHorizontal && view.server_version.mini_patch >= 0;
            if denied {
                &&& request == Err::<Option<HostRequest>, ControlError>(
                    ControlError::ApolloPermissionDenied,
                )
                &&& final(stream)@ == view
            } else if unknown {
                &&& request == Err::<Option<HostRequest>, ControlError>(
                    ControlError::PacketNotSupported,
                )
                &&& final(stream)@ == view
            } else {
                &&& request == Ok::<Option<HostRequest>, ControlError>(
                    match at_once {
                        Some(packet) => Some(
                            HostRequest::Send {
                                peer: view.peer,
                                server_version: view.server_version,
                                packet,
                            },
                        ),
                        None => None,
                    },
                )
                &&& final(stream)@ == (ControlView { batcher: final(batcher)@, ..view })
            }
        }),
{
    if let Some(permissions) = old(stream)@.apollo_permissions {
        let bits = permissions.0;
        assert((bits & 0x100 == 0x100) == (bits / 0x100 % 2 == 1)) by (bit_vector);
        assert((bits & 0x200 == 0x200) == (bits / 0x200 % 2 == 1)) by (bit_vector);
        assert((bits & 0x400 == 0x400) == (bits / 0x400 % 2 == 1)) by (bit_vector);
        assert((bits & 0x800 == 0x800) == (bits / 0x800 % 2 == 1)) by (bit_vector);
        assert((bits & 0x1000 == 0x1000) == (bits / 0x1000 % 2 == 1)) by (bit_vector);
    }
}

/// Collected input that is sent on demand is what a batcher gives out, in order,
/// and the next send is counted from now.
pub proof fn law_collected_input_is_sent_on_demand(
    stream: &mut ControlStream,
    requests: Vec<HostRequest>,
    batcher: &mut InputBatcher,
    taken: Vec<ControlPacket>,
)
    requires
        call_ensures(ControlStream::send_batched_inputs_now, (stream,), requests),
        old(batcher)@ == old(stream)@.batcher,
        call_ensures(InputBatcher::remove_batched_inputs, (batcher,), taken),
    ensures
        requests@.len() == taken@.len(),
        forall|i: int|
            0 <= i < taken@.len() ==> #[trigger] requests@[i] == (HostRequest::Send {
                peer: old(stream)@.peer,
                server_version: old(stream)@.server_version,
                packet: taken@[i],
            }),
        final(stream)@ == (ControlView {
            last_batch_send: old(stream)@.last_now,
            batcher: final(batcher)@,
            ..old(stream)@
        }),
{
}

/// A packet goes to the host of the stream. One that must not be lost waits
/// behind the others until there is a connection.
pub proof fn law_packets_go_to_the_host(
    stream: &mut ControlStream,
    packet: ControlPacket,
    force_packet: bool,
    request: Option<HostRequest>,
    raw: HostRequest,
)
    requires
        call_ensures(ControlStream::send_inner, (stream, packet, force_packet), request),
        call_ensures(ControlStream::send_raw, (&*old(stream), packet), raw),
    ensures
        raw == (HostRequest::Send {
            peer: old(stream)@.peer,
            server_version: old(stream)@.server_version,
            packet,
        }),
        force_packet && !old(stream)@.peer_connected ==> {
            &&& request is None
            &&& final(stream)@ == (ControlView {
                buffered_packets: old(stream)@.buffered_packets.push(packet),
                ..old(stream)@
            })
        },
        !force_packet || old(stream)@.peer_connected ==> {
            &&& request == Some(raw)
            &&& final(stream)@ == old(stream)@
        },
{
}

/// Closing the connection, and asking whether it is gone, go to the transport;
/// what it measured is what is reported.
pub proof fn law_transport_is_asked(
    stream: &ControlStream,
    data: u32,
    closing: HostRequest,
    asking: HostRequest,
    measured: Option<EstimatedRttInfo>,
    rtt: Result<EstimatedRttInfo, ControlError>,
)
    requires
        call_ensures(ControlStream::disconnect, (stream, data), closing),
        call_ensures(ControlStream::can_discard, (stream,), asking),
        call_ensures(ControlStream::estimated_rtt, (stream, measured), rtt),
    ensures
        closing == (HostRequest::Disconnect { peer: stream@.peer, data }),
        asking is CanDiscard,
        measured matches Some(measured) ==> rtt == Ok::<EstimatedRttInfo, ControlError>(measured),
        measured is None ==> rtt == Err::<EstimatedRttInfo, ControlError>(
            ControlError::NotConnected,
        ),
{
}

/// Events are taken in the order in which they came.
pub proof fn law_events_are_taken_in_order(
    stream: &mut ControlStream,
    event: Option<ControlStreamEvent>,
)
    requires
        call_ensures(ControlStream::poll_event, (stream,), event),
    ensures
        match event {
            Some(event) => old(stream)@.events == seq![event] + final(stream)@.events,
            None => old(stream)@.events.len() == 0 && final(stream)@.events.len() == 0,
        },
        final(stream)@ == (ControlView { events: final(stream)@.events, ..old(stream)@ }),
{
    if event is Some {
        assert(old(stream)@.events =~= seq![event->0] + final(stream)@.events);
    }
}

/// Whether a version comes after another or is the same: the first part that
/// differs decides.
pub open spec fn comes_after(version: Seq<int>, other: Seq<int>) -> bool
    decreases version.len(),
{
    version.len() == 0 || other.len() == 0 || version[0] > other[0] || version[0] == other[0]
        && comes_after(version.skip(1), other.skip(1))
}

/// The parts of a version, the most important first.
pub open spec fn version_parts(version: ServerVersion) -> Seq<int> {
    seq![
        version.major as int,
        version.minor as int,
        version.patch as int,
        version.mini_patch as int,
    ]
}

/// Versions are told apart by the first part that differs, and a version whose
/// last part is negative is derived from Sunshine.
pub proof fn law_versions_are_ordered(
    version: ServerVersion,
    other: ServerVersion,
    at_least: bool,
    sunshine: bool,
)
    requires
        call_ensures(ServerVersion::is_at_least, (&version, other), at_least),
        call_ensures(ServerVersion::is_sunshine_like, (&version,), sunshine),
    ensures
        at_least == comes_after(version_parts(version), version_parts(other)),
        sunshine == (version.mini_patch < 0),
{
    reveal_with_fuel(comes_after, 5);
    let a = version_parts(version);
    let b = version_parts(other);
    assert(a.skip(1).skip(1) =~= a.skip(2) && b.skip(1).skip(1) =~= b.skip(2));
    assert(a.skip(2).skip(1) =~= a.skip(3) && b.skip(2).skip(1) =~= b.skip(3));
}

/// A version is made of its parts.
pub proof fn law_version_is_made_of_its_parts(
    major: i32,
    minor: i32,
    patch: i32,
    mini_patch: i32,
    version: ServerVersion,
)
    requires
        call_ensures(ServerVersion::new, (major, minor, patch, mini_patch), version),
    ensures
        version.major == major,
        version.minor == minor,
        version.patch == patch,
        version.mini_patch == mini_patch,
{
}

/// A connection is opened to the host as it was set up, for hosts of version 5
/// and later whose packets are known.
pub proof fn law_connection_is_opened_as_set_up(
    config: ControlStreamConfig,
    packets_known: bool,
    request: Result<ConnectRequest, ControlError>,
)
    requires
        call_ensures(connect_request, (&config, packets_known), request),
    ensures
        config.server_version.major >= 5 && packets_known ==> request == Ok::<
            ConnectRequest,
            ControlError,
        >(
            ConnectRequest {
                addr: config.addr,
                server_version: config.server_version,
                sunshine_connect_data: config.sunshine_connect_data,
                encryption: config.encryption,
            },
        ),
        config.server_version.major < 5 || !packets_known ==> request == Err::<
            ConnectRequest,
            ControlError,
        >(ControlError::VersionNotSupported(config.server_version)),
{
}

/// A stream can be made exactly if a connection can be opened. It is as it was
/// set up, is not connected, has nothing to tell and nothing to send; its pings
/// are counted from now, for hosts of version 7.1.415 and later.
pub proof fn law_new_stream_is_as_set_up(
    now: Instant,
    config: ControlStreamConfig,
    packets_known: bool,
    peer: ControlPeerId,
    stream: Result<ControlStream, ControlError>,
)
    requires
        call_ensures(ControlStream::new, (now, config, packets_known, peer), stream),
    ensures
        stream is Ok <==> config.server_version.major >= 5 && packets_known,
        stream matches Err(error) ==> error == ControlError::VersionNotSupported(
            config.server_version,
        ),
        stream matches Ok(stream) ==> {
            &&& stream@.server_version == config.server_version
            &&& stream@.apollo_permissions == config.apollo_permissions
            &&& stream@.addr == config.addr
            &&& stream@.peer == peer
            &&& !stream@.peer_connected
            &&& stream@.last_now == now
            &&& stream@.last_batch_send == now
            &&& stream@.last_ping == if comes_after(
                version_parts(config.server_version),
                seq![7, 1, 415, 0],
            ) {
                Some(now)
            } else {
                None
            }
            &&& stream@.buffered_packets.len() == 0
            &&& stream@.events.len() == 0
            &&& !has_collected(stream@.batcher)
            &&& stream@.batcher.gamepads.0 == 0
            &&& forall|key: u16| !#[trigger] stream@.batcher.pressed_keys.contains(key)
        },
{
    reveal_with_fuel(comes_after, 5);
    let a = version_parts(config.server_version);
    let b: Seq<int> = seq![7, 1, 415, 0];
    assert(a.skip(1).skip(1) =~= a.skip(2) && b.skip(1).skip(1) =~= b.skip(2));
    assert(a.skip(2).skip(1) =~= a.skip(3) && b.skip(2).skip(1) =~= b.skip(3));
}

} // verus!
