//! What holds of the control stream over several calls.

use vstd::prelude::*;

use crate::control::host::{ControlError, ControlHostEvent, HostReply};
use crate::control::input::{
    lemma_minus, lemma_plus, lemma_plus_minus, ControllerButtons, ControllerCapabilities,
    ControllerType, KeyAction, KeyCode, KeyFlags, KeyModifiers, MAX_GAMEPADS,
};
use crate::control::input_batcher::{after_input, converted, BatcherView, ClientInputEvent};
use crate::control::model::{
    answers, flushed, poll_next, resumed, ControlView, PhaseView, StepView, BATCH_INTERVAL,
    PERIODIC_PING_INTERVAL,
};
use crate::control::packet::ControlPacket;
use crate::control::stream::ControlStreamEvent;
use crate::time::Instant;

verus! {

/// There is something to send exactly when something was collected, four
/// packets at most, and nothing after it was taken out.
pub proof fn law_dirty_means_packets(view: BatcherView)
    ensures
        view.dirty() <==> view.collected().len() > 0,
        view.collected().len() <= 4,
        !view.emptied().dirty(),
        view.emptied().collected().len() == 0,
{
}

/// Taking out what was collected keeps which keys are held down and which
/// controllers are connected.
pub proof fn law_taking_out_keeps_what_is_held(view: BatcherView)
    ensures
        view.emptied().pressed_keys == view.pressed_keys,
        view.emptied().gamepads == view.gamepads,
{
}

/// A key that is reported the same way twice is sent once at most.
pub proof fn law_repeated_key_is_not_sent(
    view: BatcherView,
    action: KeyAction,
    flags: KeyFlags,
    key_code: KeyCode,
    modifiers: KeyModifiers,
)
    ensures
        ({
            let input = ClientInputEvent::Keyboard { action, flags, key_code, modifiers };
            let first = after_input(view, input).0;
            after_input(first, input) == (first, None::<ControlPacket>)
        }),
{
}

/// A key that was up is as before after it is pressed and released, and both
/// are sent.
pub proof fn law_pressing_and_releasing(
    view: BatcherView,
    flags: KeyFlags,
    key_code: KeyCode,
    modifiers: KeyModifiers,
)
    requires
        !view.pressed_keys.contains(key_code.0),
    ensures
        ({
            let down = ClientInputEvent::Keyboard {
                action: KeyAction::Down,
                flags,
                key_code,
                modifiers,
            };
            let up = ClientInputEvent::Keyboard {
                action: KeyAction::Up,
                flags,
                key_code,
                modifiers,
            };
            let (pressed, first) = after_input(view, down);
            let (released, second) = after_input(pressed, up);
            &&& first is Some
            &&& second is Some
            &&& released == view
        }),
{
    assert(view.pressed_keys.insert(key_code.0).remove(key_code.0) =~= view.pressed_keys);
}

/// A controller that is connected can be disconnected, which says that it is
/// gone and leaves everything as it was before; and then it can be connected
/// again.
pub proof fn law_connected_controller_can_disconnect(
    view: BatcherView,
    controller_number: u8,
    ty: ControllerType,
    capabilities: ControllerCapabilities,
    supported_buttons: ControllerButtons,
)
    requires
        controller_number < MAX_GAMEPADS,
        !view.gamepads@.contains(controller_number),
    ensures
        ({
            let connect = ClientInputEvent::ControllerConnect {
                controller_number,
                ty,
                capabilities,
                supported_buttons,
            };
            let disconnect = ClientInputEvent::ControllerDisconnect { controller_number };
            let (connected, arrival) = after_input(view, connect);
            let (after, gone) = after_input(connected, disconnect);
            &&& arrival == Some(
                ControlPacket::ControllerArrival {
                    controller_number,
                    ty,
                    capabilities,
                    supported_buttons,
                },
            )
            &&& connected.gamepads@ == view.gamepads@.insert(controller_number)
            &&& gone matches Some(ControlPacket::ControllerState { active_gamepad_mask, .. })
            &&& active_gamepad_mask == view.gamepads
            &&& after == view
            &&& after_input(after, connect) == (connected, arrival)
        }),
{
    lemma_plus(view.gamepads, controller_number);
    lemma_plus_minus(view.gamepads, controller_number);
}

/// An event that is sent at once leaves the movements that were collected
/// alone. It changes which keys are held down only if it is a key, and then at
/// most that key; and which controllers are connected only if it connects or
/// disconnects one, and then at most that one.
pub proof fn law_sending_leaves_movements_alone(view: BatcherView, input: ClientInputEvent)
    ensures
        ({
            let after = converted(view, input).0;
            &&& after == (BatcherView {
                pressed_keys: after.pressed_keys,
                gamepads: after.gamepads,
                ..view
            })
            &&& after.dirty() == view.dirty()
            &&& after.collected() == view.collected()
            &&& match input {
                ClientInputEvent::Keyboard { key_code, .. } => forall|other: u16|
                    other != key_code.0 ==> #[trigger] after.pressed_keys.contains(other)
                        == view.pressed_keys.contains(other),
                _ => after.pressed_keys == view.pressed_keys,
            }
            &&& match input {
                ClientInputEvent::ControllerConnect { controller_number, .. } => forall|other: u8|
                    other != controller_number ==> #[trigger] after.gamepads@.contains(other)
                        == view.gamepads@.contains(other),
                ClientInputEvent::ControllerDisconnect { controller_number } => forall|other: u8|
                    other != controller_number ==> #[trigger] after.gamepads@.contains(other)
                        == view.gamepads@.contains(other),
                _ => after.gamepads == view.gamepads,
            }
        }),
{
    match input {
        ClientInputEvent::ControllerConnect { controller_number, .. } => {
            if controller_number < MAX_GAMEPADS {
                lemma_plus(view.gamepads, controller_number);
            }
        },
        ClientInputEvent::ControllerDisconnect { controller_number } => {
            if controller_number < MAX_GAMEPADS {
                lemma_minus(view.gamepads, controller_number);
            }
        },
        _ => {},
    }
}

/// Something that changes a batcher.
pub enum BatcherCall {
    /// An event is taken in.
    Input(ClientInputEvent),
    /// What was collected is taken out.
    TakeOut,
}

/// What a batcher holds after a call, and what it has to send at once.
pub open spec fn after_call(view: BatcherView, call: BatcherCall) -> (
    BatcherView,
    Option<ControlPacket>,
) {
    match call {
        BatcherCall::Input(input) => after_input(view, input),
        BatcherCall::TakeOut => (view.emptied(), None),
    }
}

/// What a batcher holds after several calls.
pub open spec fn after_calls(view: BatcherView, calls: Seq<BatcherCall>) -> BatcherView
    decreases calls.len(),
{
    if calls.len() == 0 {
        view
    } else {
        after_call(after_calls(view, calls.drop_last()), calls.last()).0
    }
}

/// What was sent about a key over several calls.
pub open spec fn key_actions(view: BatcherView, calls: Seq<BatcherCall>, key: u16) -> Seq<KeyAction>
    decreases calls.len(),
{
    if calls.len() == 0 {
        Seq::empty()
    } else {
        let before = key_actions(view, calls.drop_last(), key);
        match after_call(after_calls(view, calls.drop_last()), calls.last()).1 {
            Some(ControlPacket::Keyboard { action, key_code, .. }) => if key_code.0 == key {
                before.push(action)
            } else {
                before
            },
            _ => before,
        }
    }
}

/// Over any history of a batcher that began empty, what is sent about a key
/// alternates between down and up, beginning with down; and the key is held
/// down exactly if the last that was sent about it was down.
pub proof fn law_keys_alternate(calls: Seq<BatcherCall>, key: u16)
    ensures
        ({
            let actions = key_actions(BatcherView::empty(), calls, key);
            &&& forall|i: int|
                0 <= i < actions.len() ==> #[trigger] actions[i] == if i % 2 == 0 {
                    KeyAction::Down
                } else {
                    KeyAction::Up
                }
            &&& after_calls(BatcherView::empty(), calls).pressed_keys.contains(key) == (
            actions.len() > 0 && actions.last() == KeyAction::Down)
        }),
    decreases calls.len(),
{
    if calls.len() > 0 {
        law_keys_alternate(calls.drop_last(), key);
    }
}

/// A key event is sent exactly if it changes whether the key is held down, and
/// as it is.
pub proof fn law_key_is_sent_when_it_changes(
    calls: Seq<BatcherCall>,
    action: KeyAction,
    flags: KeyFlags,
    key_code: KeyCode,
    modifiers: KeyModifiers,
)
    ensures
        ({
            let input = ClientInputEvent::Keyboard { action, flags, key_code, modifiers };
            let actions = key_actions(BatcherView::empty(), calls, key_code.0);
            let held = actions.len() > 0 && actions.last() == KeyAction::Down;
            after_input(after_calls(BatcherView::empty(), calls), input).1 == if (action
                == KeyAction::Down) != held {
                Some(ControlPacket::Keyboard { action, flags, key_code, modifiers, zero: 0 })
            } else {
                None
            }
        }),
{
    law_keys_alternate(calls, key_code.0);
}

/// The state of a controller is sent exactly when it is connected.
pub proof fn law_state_needs_a_connected_controller(view: BatcherView, input: ClientInputEvent)
    requires
        input is ControllerState,
    ensures
        after_input(view, input).0 == view,
        after_input(view, input).1 is Some <==> view.gamepads@.contains(
            input->ControllerState_controller_number,
        ),
{
}

/// A controller packet lists the controllers that are connected after it.
pub proof fn law_mask_lists_connected_controllers(view: BatcherView, input: ClientInputEvent)
    ensures
        after_input(view, input).1 matches Some(
            ControlPacket::ControllerState { active_gamepad_mask, .. },
        ) ==> active_gamepad_mask == after_input(view, input).0.gamepads,
{
}

/// Two movements that fit add up, in whichever order they come.
pub proof fn law_movements_add_up(view: BatcherView, ax: i16, ay: i16, bx: i16, by: i16)
    requires
        i16::MIN <= view.mouse_delta_x + ax <= i16::MAX,
        i16::MIN <= view.mouse_delta_x + bx <= i16::MAX,
        i16::MIN <= view.mouse_delta_x + ax + bx <= i16::MAX,
        i16::MIN <= view.mouse_delta_y + ay <= i16::MAX,
        i16::MIN <= view.mouse_delta_y + by <= i16::MAX,
        i16::MIN <= view.mouse_delta_y + ay + by <= i16::MAX,
    ensures
        ({
            let a = ClientInputEvent::MouseMoveRelative { delta_x: ax, delta_y: ay };
            let b = ClientInputEvent::MouseMoveRelative { delta_x: bx, delta_y: by };
            let after = after_input(after_input(view, a).0, b).0;
            &&& after.mouse_delta_x == view.mouse_delta_x + ax + bx
            &&& after.mouse_delta_y == view.mouse_delta_y + ay + by
            &&& after == after_input(after_input(view, b).0, a).0
        }),
{
}

/// The state after some relative movements.
pub open spec fn after_movements(view: BatcherView, movements: Seq<(i16, i16)>) -> BatcherView
    decreases movements.len(),
{
    if movements.len() == 0 {
        view
    } else {
        let (delta_x, delta_y) = movements.last();
        after_input(
            after_movements(view, movements.drop_last()),
            ClientInputEvent::MouseMoveRelative { delta_x, delta_y },
        ).0
    }
}

/// How far some movements lead in all.
pub open spec fn total_movement(movements: Seq<(i16, i16)>) -> (int, int)
    decreases movements.len(),
{
    if movements.len() == 0 {
        (0, 0)
    } else {
        let (x, y) = total_movement(movements.drop_last());
        (x + movements.last().0, y + movements.last().1)
    }
}

/// Whether a movement can be told in one packet, on top of what is collected.
pub open spec fn movement_fits(view: BatcherView, total: (int, int)) -> bool {
    &&& i16::MIN <= view.mouse_delta_x + total.0 <= i16::MAX
    &&& i16::MIN <= view.mouse_delta_y + total.1 <= i16::MAX
}

/// Any number of movements add up, as long as their sum fits all along.
pub proof fn law_all_movements_add_up(view: BatcherView, movements: Seq<(i16, i16)>)
    requires
        forall|n: int|
            0 <= n <= movements.len() ==> movement_fits(
                view,
                #[trigger] total_movement(movements.take(n)),
            ),
    ensures
        after_movements(view, movements).mouse_delta_x == view.mouse_delta_x + total_movement(
            movements,
        ).0,
        after_movements(view, movements).mouse_delta_y == view.mouse_delta_y + total_movement(
            movements,
        ).1,
    decreases movements.len(),
{
    assert(movements.take(movements.len() as int) =~= movements);
    if movements.len() > 0 {
        let past = movements.drop_last();
        assert forall|n: int| 0 <= n <= past.len() implies movement_fits(
            view,
            #[trigger] total_movement(past.take(n)),
        ) by {
            assert(past.take(n) =~= movements.take(n));
        }
        law_all_movements_add_up(view, past);
        assert(movement_fits(view, total_movement(movements.take(movements.len() as int))));
    }
}

/// What an update that is in a phase comes to after some answers. Answers that
/// are left when it is over are not looked at.
pub open spec fn after_replies(
    view: ControlView,
    phase: PhaseView,
    replies: Seq<HostReply>,
) -> (ControlView, StepView)
    decreases replies.len(),
{
    let (next, step) = resumed(view, phase, replies[0]);
    match step {
        StepView::Ask(_, phase) => if replies.len() <= 1 {
            (next, step)
        } else {
            after_replies(next, phase, replies.skip(1))
        },
        StepView::Done(_) => (next, step),
    }
}

/// An update never takes away events that were not taken, nor changes what the
/// stream was set up with.
pub proof fn law_update_keeps_events(view: ControlView, phase: PhaseView, replies: Seq<HostReply>)
    requires
        replies.len() > 0,
    ensures
        view.events.is_prefix_of(after_replies(view, phase, replies).0.events),
        after_replies(view, phase, replies).0.peer == view.peer,
        after_replies(view, phase, replies).0.addr == view.addr,
        after_replies(view, phase, replies).0.server_version == view.server_version,
        after_replies(view, phase, replies).0.apollo_permissions == view.apollo_permissions,
    decreases replies.len(),
{
    let (next, step) = resumed(view, phase, replies[0]);
    assert(view.events.is_prefix_of(next.events));
    if step is Ask && replies.len() > 1 {
        law_update_keeps_events(next, step->Ask_1, replies.skip(1));
    }
}

/// An update in which the transport tells that the host is disconnected does
/// not fail because the last peer is gone: the event that tells so comes first.
pub proof fn law_disconnect_comes_before_not_connected(
    view: ControlView,
    replies: Seq<HostReply>,
)
    requires
        replies.len() > 0,
        replies[0] == HostReply::Event(Some(ControlHostEvent::Disconnected { id: view.peer })),
    ensures
        after_replies(view, PhaseView::Polling, replies).0.tells_disconnect(),
        ends_for_want_of_a_peer(view, PhaseView::Polling, replies) ==> after_replies(
            view,
            PhaseView::Polling,
            replies,
        ).1 == StepView::Done(Ok(())),
{
    let (next, step) = resumed(view, PhaseView::Polling, replies[0]);
    assert(next.events[next.events.len() - 1] is Disconnect);
    if replies.len() > 1 {
        lemma_told_is_not_forgotten(next, PhaseView::Polling, replies.skip(1));
    }
}

/// Whether an update is over because the last peer is gone.
pub open spec fn ends_for_want_of_a_peer(
    view: ControlView,
    phase: PhaseView,
    replies: Seq<HostReply>,
) -> bool
    decreases replies.len(),
{
    let (next, step) = resumed(view, phase, replies[0]);
    match step {
        StepView::Ask(_, phase) => replies.len() > 1 && ends_for_want_of_a_peer(
            next,
            phase,
            replies.skip(1),
        ),
        StepView::Done(_) => phase is Discarding && replies[0] == HostReply::CanDiscard(true),
    }
}

proof fn lemma_told_is_not_forgotten(
    view: ControlView,
    phase: PhaseView,
    replies: Seq<HostReply>,
)
    requires
        replies.len() > 0,
        view.tells_disconnect(),
    ensures
        after_replies(view, phase, replies).0.tells_disconnect(),
        ends_for_want_of_a_peer(view, phase, replies) ==> after_replies(
            view,
            phase,
            replies,
        ).1 == StepView::Done(Ok(())),
    decreases replies.len(),
{
    let (next, step) = resumed(view, phase, replies[0]);
    let i = choose|i: int| 0 <= i < view.events.len() && view.events[i] is Disconnect;
    assert(next.events[i] == view.events[i]);
    if step is Ask && replies.len() > 1 {
        lemma_told_is_not_forgotten(next, step->Ask_1, replies.skip(1));
    }
}

/// Once the event that tells of the end was taken, updates fail as long as the
/// last peer is gone.
pub proof fn law_not_connected_comes_after_disconnect(view: ControlView)
    requires
        !view.tells_disconnect(),
    ensures
        resumed(view, PhaseView::Discarding, HostReply::CanDiscard(true)) == (view, StepView::Done(
            Err(ControlError::NotConnected),
        )),
{
}

/// The answers of a transport that reports the connection and then sends `n`
/// packets.
pub open spec fn connected_and_sent(view: ControlView, data: u32, n: nat) -> Seq<HostReply> {
    seq![
        HostReply::Event(
            Some(ControlHostEvent::Connected { id: view.peer, sunshine_connect_data: data }),
        ),
    ] + Seq::new(n, |i: int| HostReply::Sent(Ok(())))
}

/// Packets that waited for the connection are sent in order once it is there,
/// and only then is the connection reported.
pub proof fn law_waiting_packets_are_sent_in_order(view: ControlView, data: u32, n: nat)
    requires
        n <= view.buffered_packets.len(),
    ensures
        ({
            let (after, step) = after_replies(
                view,
                PhaseView::Polling,
                connected_and_sent(view, data, n),
            );
            &&& after.peer_connected
            &&& after.buffered_packets.len() == 0
            &&& n < view.buffered_packets.len() ==> {
                &&& after.events == view.events
                &&& step == StepView::Ask(
                    view.send(view.buffered_packets[n as int]),
                    PhaseView::Flushing { rest: view.buffered_packets.skip(n as int + 1) },
                )
            }
            &&& n == view.buffered_packets.len() ==> {
                &&& after.events == view.events.push(ControlStreamEvent::Connect)
                &&& step == poll_next()
            }
        }),
{
    let replies = connected_and_sent(view, data, n);
    let (next, step) = resumed(view, PhaseView::Polling, replies[0]);
    let open = ControlView { peer_connected: true, buffered_packets: Seq::empty(), ..view };
    assert(replies.skip(1) =~= Seq::new(n, |i: int| HostReply::Sent(Ok(()))));
    if n > 0 {
        assert(next == open);
        lemma_flushing(open, view.buffered_packets, n);
        if n < view.buffered_packets.len() {
            assert(view.buffered_packets.skip(n as int).skip(1) =~= view.buffered_packets.skip(
                n as int + 1,
            ));
        }
    }
}

/// How flushing goes on while packets are sent.
proof fn lemma_flushing(view: ControlView, packets: Seq<ControlPacket>, n: nat)
    requires
        0 < n <= packets.len(),
    ensures
        after_replies(
            view,
            PhaseView::Flushing { rest: packets.skip(1) },
            Seq::new(n, |i: int| HostReply::Sent(Ok(()))),
        ) == flushed(view, packets.skip(n as int)),
    decreases n,
{
    let replies = Seq::new(n, |i: int| HostReply::Sent(Ok(())));
    let rest = packets.skip(1);
    assert(resumed(view, PhaseView::Flushing { rest }, replies[0]) == flushed(view, rest));
    if n > 1 {
        assert(replies.skip(1) =~= Seq::new((n - 1) as nat, |i: int| HostReply::Sent(Ok(()))));
        lemma_flushing(view, rest, (n - 1) as nat);
        assert(rest.skip(n - 1) =~= packets.skip(n as int));
    }
}

/// Something that changes a control stream.
pub enum ControlMove {
    /// An update goes on after an answer of the transport.
    Resume(PhaseView, HostReply),
    /// The first event is taken.
    TakeEvent,
    /// An input is taken in.
    Input(ClientInputEvent),
    /// Collected input is sent.
    SendBatch,
    /// A packet is kept until there is a connection.
    Keep(ControlPacket),
}

/// What a control stream holds after a move.
pub open spec fn after_move(view: ControlView, step: ControlMove) -> ControlView {
    match step {
        ControlMove::Resume(phase, reply) => resumed(view, phase, reply).0,
        ControlMove::TakeEvent => if view.events.len() == 0 {
            view
        } else {
            ControlView { events: view.events.skip(1), ..view }
        },
        ControlMove::Input(input) => view.after_input(input),
        ControlMove::SendBatch => view.batch_sent(),
        ControlMove::Keep(packet) => view.buffering(packet),
    }
}

/// What a control stream holds after several moves.
pub open spec fn after_moves(view: ControlView, moves: Seq<ControlMove>) -> ControlView
    decreases moves.len(),
{
    if moves.len() == 0 {
        view
    } else {
        after_move(after_moves(view, moves.drop_last()), moves.last())
    }
}

/// Whether a move is the transport telling that the host is disconnected.
pub open spec fn tells_end(view: ControlView, step: ControlMove) -> bool {
    step == ControlMove::Resume(
        PhaseView::Polling,
        HostReply::Event(Some(ControlHostEvent::Disconnected { id: view.peer })),
    )
}

/// Whether a move takes the event that tells of the end.
pub open spec fn takes_end(view: ControlView, step: ControlMove) -> bool {
    step is TakeEvent && view.events.len() > 0 && view.events[0] is Disconnect
}

/// Over any history, once the transport has told that the host is disconnected,
/// updates do not fail because the last peer is gone until the event that tells
/// so was taken.
pub proof fn law_not_connected_waits_for_the_event(
    view: ControlView,
    moves: Seq<ControlMove>,
    told: int,
)
    requires
        0 <= told < moves.len(),
        tells_end(view, moves[told]),
        forall|i: int|
            told < i < moves.len() ==> !takes_end(
                after_moves(view, moves.take(i)),
                #[trigger] moves[i],
            ),
    ensures
        after_moves(view, moves).tells_disconnect(),
        resumed(
            after_moves(view, moves),
            PhaseView::Discarding,
            HostReply::CanDiscard(true),
        ).1 == StepView::Done(Ok(())),
    decreases moves.len(),
{
    let before = moves.drop_last();
    let state = after_moves(view, before);
    let n = moves.len() - 1;
    lemma_moves_keep_peer(view, before);
    assert(moves.take(n) =~= before);
    assert(moves[n] == moves.last());
    let after = after_moves(view, moves);
    if told == n {
        assert(after.events[after.events.len() - 1] is Disconnect);
    } else {
        assert forall|i: int| told < i < before.len() implies !takes_end(
            after_moves(view, before.take(i)),
            #[trigger] before[i],
        ) by {
            assert(before[i] == moves[i]);
            assert(before.take(i) =~= moves.take(i));
        }
        law_not_connected_waits_for_the_event(view, before, told);
        let i = choose|i: int| 0 <= i < state.events.len() && state.events[i] is Disconnect;
        if moves.last() is TakeEvent {
            assert(i > 0);
            assert(after.events[i - 1] == state.events[i]);
        } else {
            assert(after.events[i] == state.events[i]);
        }
    }
}

/// The peer never changes.
proof fn lemma_moves_keep_peer(view: ControlView, moves: Seq<ControlMove>)
    ensures
        after_moves(view, moves).peer == view.peer,
    decreases moves.len(),
{
    if moves.len() > 0 {
        lemma_moves_keep_peer(view, moves.drop_last());
    }
}

/// With nothing collected, the next thing that a stream has to do of itself is
/// the next periodic ping, an interval after the last one.
pub proof fn law_deadline_is_the_next_ping(view: ControlView, last_ping: Instant)
    requires
        view.wf(),
        view.last_ping == Some(last_ping),
        !view.batcher.dirty(),
    ensures
        view.deadline(None) == view.next_ping(),
        view.next_ping() matches Some(next) && next.nanos == last_ping.nanos
            + PERIODIC_PING_INTERVAL,
{
}

/// Whether the batch is dealt with, in a phase that comes after it.
pub open spec fn batch_is_done(view: ControlView, phase: PhaseView) -> bool {
    phase is Batching || phase is Pinging ==> !view.batch_due()
}

/// Periodic pings are asked for only when one is due; a ping that was sent puts
/// the next one off by the interval; and hosts that want no pings get none.
pub proof fn law_pings_keep_their_distance(view: ControlView, phase: PhaseView, reply: HostReply)
    ensures
        resumed(view, phase, reply).1 matches StepView::Ask(_, PhaseView::Pinging) ==> {
            &&& resumed(view, phase, reply).0.ping_due()
            &&& view.last_ping is Some
        },
        phase is Pinging && reply == HostReply::Sent(Ok(())) ==> !resumed(
            view,
            phase,
            reply,
        ).0.ping_due(),
        view.last_ping is None && !(phase is Pinging) ==> resumed(
            view,
            phase,
            reply,
        ).0.last_ping is None,
{
}

/// Collected input is sent only when some time has passed since the last time,
/// and is then gone from the batch.
pub proof fn law_batches_keep_their_distance(view: ControlView, phase: PhaseView, reply: HostReply)
    requires
        batch_is_done(view, phase),
    ensures
        resumed(view, phase, reply).1 matches StepView::Ask(_, next) ==> batch_is_done(
            resumed(view, phase, reply).0,
            next,
        ),
        phase is Discarding && (resumed(view, phase, reply).1 matches StepView::Ask(_, next)
            && next is Batching) ==> {
            &&& view.last_batch_send.nanos + BATCH_INTERVAL <= view.last_now.nanos
            &&& !resumed(view, phase, reply).0.batcher.dirty()
        },
{
}

/// After an update that did all it had to, no deadline of the stream itself has
/// passed: the stream does not keep its driver busy.
pub proof fn law_no_deadline_is_left_behind(view: ControlView, phase: PhaseView, reply: HostReply)
    requires
        view.wf(),
        batch_is_done(view, phase),
        phase is Discarding || phase is Batching || phase is Pinging,
        reply == HostReply::CanDiscard(false) || reply == HostReply::Sent(Ok(())),
        answers(phase, reply),
        resumed(view, phase, reply).1 is Done,
    ensures
        resumed(view, phase, reply).1 == StepView::Done(Ok(())),
        resumed(view, phase, reply).0.deadline(None) matches Some(deadline) && deadline.nanos
            > resumed(view, phase, reply).0.last_now.nanos,
{
}

} // verus!
