//! What becomes of each input: the packet that reports it, or what is collected
//! until the next send.

use vstd::prelude::*;

use crate::control::input::{
    gamepad_bit, lemma_minus, lemma_plus, ActiveGamepads, ControllerButtons, ControllerCapabilities,
    ControllerType, FloatBits, KeyAction, KeyCode, KeyFlags, KeyModifiers, MouseButton,
    MouseButtonAction, PenButtons, ToolType, TouchEventType,
};
use crate::control::input_batcher::{BatcherView, ClientInputEvent, InputBatcher};
use crate::control::packet::ControlPacket;

verus! {

/// A touch is sent at once and as it was reported. A rotation that is not known
/// is sent as all ones.
pub proof fn law_touch_is_sent_as_reported(
    batcher: &mut InputBatcher,
    event_type: TouchEventType,
    rotation: Option<u16>,
    pointer_id: u32,
    x: FloatBits,
    y: FloatBits,
    pressure_or_distance: FloatBits,
    contact_area_minor: FloatBits,
    contact_area_major: FloatBits,
    packet: Option<ControlPacket>,
)
    requires
        ({
            let input = ClientInputEvent::Touch {
                event_type,
                rotation,
                pointer_id,
                x,
                y,
                pressure_or_distance,
                contact_area_minor,
                contact_area_major,
            };
            call_ensures(InputBatcher::batch_input, (batcher, input), packet) || call_ensures(
                InputBatcher::convert_input,
                (batcher, input),
                packet,
            )
        }),
    ensures
        final(batcher)@ == old(batcher)@,
        packet == Some(
            ControlPacket::Touch {
                event_type,
                reserved: 0,
                rotation: match rotation {
                    Some(known) => known,
                    None => 0xFFFF,
                },
                pointer_id,
                x,
                y,
                pressure_or_distance,
                contact_area_minor,
                contact_area_major,
            },
        ),
{
}

/// What a pen does is sent at once and as it was reported. A rotation or tilt
/// that is not known is sent as all ones.
pub proof fn law_pen_is_sent_as_reported(
    batcher: &mut InputBatcher,
    event_type: TouchEventType,
    tool_type: ToolType,
    buttons: PenButtons,
    x: FloatBits,
    y: FloatBits,
    pressure_or_distance: FloatBits,
    rotation: Option<u16>,
    tilt: Option<u8>,
    contact_area_minor: FloatBits,
    contact_area_major: FloatBits,
    packet: Option<ControlPacket>,
)
    requires
        ({
            let input = ClientInputEvent::Pen {
                event_type,
                tool_type,
                buttons,
                x,
                y,
                pressure_or_distance,
                rotation,
                tilt,
                contact_area_minor,
                contact_area_major,
            };
            call_ensures(InputBatcher::batch_input, (batcher, input), packet) || call_ensures(
                InputBatcher::convert_input,
                (batcher, input),
                packet,
            )
        }),
    ensures
        final(batcher)@ == old(batcher)@,
        packet == Some(
            ControlPacket::Pen {
                event_type,
                tool_type,
                buttons,
                zero: 0,
                x,
                y,
                pressure_or_distance,
                rotation: match rotation {
                    Some(known) => known,
                    None => 0xFFFF,
                },
                tilt: match tilt {
                    Some(known) => known,
                    None => 0xFF,
                },
                zero2: 0,
                contact_area_minor,
                contact_area_major,
            },
        ),
{
}

/// A button of the mouse is sent at once and as it was reported.
pub proof fn law_button_is_sent_as_reported(
    batcher: &mut InputBatcher,
    action: MouseButtonAction,
    button: MouseButton,
    packet: Option<ControlPacket>,
)
    requires
        ({
            let input = ClientInputEvent::MouseButton { action, button };
            call_ensures(InputBatcher::batch_input, (batcher, input), packet) || call_ensures(
                InputBatcher::convert_input,
                (batcher, input),
                packet,
            )
        }),
    ensures
        final(batcher)@ == old(batcher)@,
        packet == Some(ControlPacket::MouseButton { action, button }),
{
}

/// A key is sent at once and as it was reported if that changes whether it is
/// held down; otherwise it is not sent. Either way it is held down afterwards
/// exactly if it was pressed, and all else stays as it is.
pub proof fn law_key_is_sent_as_reported(
    batcher: &mut InputBatcher,
    action: KeyAction,
    flags: KeyFlags,
    key_code: KeyCode,
    modifiers: KeyModifiers,
    packet: Option<ControlPacket>,
    key: u16,
)
    requires
        ({
            let input = ClientInputEvent::Keyboard { action, flags, key_code, modifiers };
            call_ensures(InputBatcher::batch_input, (batcher, input), packet) || call_ensures(
                InputBatcher::convert_input,
                (batcher, input),
                packet,
            )
        }),
    ensures
        ({
            let held = old(batcher)@.pressed_keys.contains(key_code.0);
            packet == if (action is Down && !held) || (action is Up && held) {
                Some(ControlPacket::Keyboard { action, flags, key_code, modifiers, zero: 0 })
            } else {
                None
            }
        }),
        final(batcher)@.pressed_keys.contains(key) == if key == key_code.0 {
            action is Down
        } else {
            old(batcher)@.pressed_keys.contains(key)
        },
        final(batcher)@ == (BatcherView {
            pressed_keys: final(batcher)@.pressed_keys,
            ..old(batcher)@
        }),
{
}

/// Whether a bit of a number is set.
pub open spec fn has_bit(number: int, bit: nat) -> bool
    decreases bit,
{
    if bit == 0 {
        number % 2 == 1
    } else {
        has_bit(number / 2, (bit - 1) as nat)
    }
}

/// Bit by bit, shifting and dividing by two are the same.
proof fn lemma_has_bit(mask: u16, id: u8)
    requires
        id < 16,
    ensures
        (mask & gamepad_bit(id) != 0) == has_bit(mask as int, id as nat),
    decreases id,
{
    if id == 0 {
        assert((mask & (1u16 << 0u8) != 0) == (mask % 2 == 1)) by (bit_vector);
    } else {
        let half = mask / 2;
        let one_less = (id - 1) as u8;
        assert(one_less < 15 && half == mask / 2 ==> (mask & (1u16 << ((one_less + 1) as u8)) != 0)
            == (half & (1u16 << one_less) != 0)) by (bit_vector);
        assert((one_less + 1) as u8 == id);
        lemma_has_bit(half, one_less);
        assert(half as int == mask as int / 2);
    }
}

/// The mask that the host is sent has the bit of each controller that is
/// connected, from the least significant on, and no other.
pub proof fn law_mask_has_the_bits_of_the_controllers(gamepads: ActiveGamepads, id: u8)
    ensures
        gamepads@.contains(id) <==> id < 16 && has_bit(gamepads.0 as int, id as nat),
{
    if id < 16 {
        lemma_has_bit(gamepads.0, id);
    }
}

/// Asking about controllers, adding one and taking one away mean what they say
/// of the bits of the mask.
pub proof fn law_controllers_are_bits_of_the_mask(
    none: ActiveGamepads,
    gamepads: ActiveGamepads,
    id: u8,
    other: u8,
    empty: bool,
    connected: bool,
    more: ActiveGamepads,
    fewer: ActiveGamepads,
)
    requires
        id < 16,
        other < 16,
        call_ensures(ActiveGamepads::empty, (), none),
        call_ensures(ActiveGamepads::is_empty, (&gamepads,), empty),
        call_ensures(ActiveGamepads::contains, (&gamepads, id), connected),
        call_ensures(ActiveGamepads::with, (&gamepads, id), more),
        call_ensures(ActiveGamepads::without, (&gamepads, id), fewer),
    ensures
        none.0 == 0,
        gamepads.0 == 0 ==> empty,
        has_bit(gamepads.0 as int, id as nat) ==> !empty,
        connected == has_bit(gamepads.0 as int, id as nat),
        has_bit(more.0 as int, other as nat) == (has_bit(gamepads.0 as int, other as nat) || other
            == id),
        has_bit(fewer.0 as int, other as nat) == (has_bit(gamepads.0 as int, other as nat) && other
            != id),
{
    lemma_has_bit(gamepads.0, id);
    lemma_has_bit(gamepads.0, other);
    lemma_has_bit(more.0, other);
    lemma_has_bit(fewer.0, other);
    assert(gamepads@.contains(id) == (gamepads.0 & gamepad_bit(id) != 0));
    assert(gamepads@.contains(other) == (gamepads.0 & gamepad_bit(other) != 0));
    assert(more@.contains(other) == (more.0 & gamepad_bit(other) != 0));
    assert(fewer@.contains(other) == (fewer.0 & gamepad_bit(other) != 0));
    if gamepads.0 == 0 {
        assert(gamepads@ =~= Set::<u8>::empty()) by {
            assert forall|one: u8| !#[trigger] gamepads@.contains(one) by {
                if one < 16 {
                    lemma_has_bit(0, one);
                    lemma_no_bits(one as nat);
                }
            }
        }
    }
}

/// Zero has no bits.
proof fn lemma_no_bits(bit: nat)
    ensures
        !has_bit(0, bit),
    decreases bit,
{
    if bit > 0 {
        lemma_no_bits((bit - 1) as nat);
    }
}

/// Nothing pressed, nothing supported and nothing moved is zero; the state of a
/// controller is made of its parts.
pub proof fn law_state_is_made_of_its_parts(
    zero: FloatBits,
    no_buttons: ControllerButtons,
    no_capabilities: ControllerCapabilities,
    active_gamepad_mask: ActiveGamepads,
    controller_number: i16,
    buttons: ControllerButtons,
    left_trigger: FloatBits,
    right_trigger: FloatBits,
    left_stick_x: FloatBits,
    left_stick_y: FloatBits,
    right_stick_x: FloatBits,
    right_stick_y: FloatBits,
    packet: ControlPacket,
)
    requires
        call_ensures(FloatBits::zero, (), zero),
        call_ensures(ControllerButtons::empty, (), no_buttons),
        call_ensures(ControllerCapabilities::empty, (), no_capabilities),
        call_ensures(
            ControlPacket::controller_state,
            (
                active_gamepad_mask,
                controller_number,
                buttons,
                left_trigger,
                right_trigger,
                left_stick_x,
                left_stick_y,
                right_stick_x,
                right_stick_y,
            ),
            packet,
        ),
    ensures
        zero.0 == 0,
        no_buttons.0 == 0,
        no_capabilities.0 == 0,
        packet == (ControlPacket::ControllerState {
            active_gamepad_mask,
            controller_number,
            buttons,
            left_trigger,
            right_trigger,
            left_stick_x,
            left_stick_y,
            right_stick_x,
            right_stick_y,
        }),
{
}

/// A controller that is not connected is connected and told at once, as it was
/// reported, if it is among the first sixteen. Otherwise nothing happens.
pub proof fn law_controller_is_told_as_reported(
    batcher: &mut InputBatcher,
    controller_number: u8,
    ty: ControllerType,
    capabilities: ControllerCapabilities,
    supported_buttons: ControllerButtons,
    packet: Option<ControlPacket>,
)
    requires
        ({
            let input = ClientInputEvent::ControllerConnect {
                controller_number,
                ty,
                capabilities,
                supported_buttons,
            };
            call_ensures(InputBatcher::batch_input, (batcher, input), packet) || call_ensures(
                InputBatcher::convert_input,
                (batcher, input),
                packet,
            )
        }),
    ensures
        if controller_number < 16 && !old(batcher)@.gamepads@.contains(controller_number) {
            &&& packet == Some(
                ControlPacket::ControllerArrival {
                    controller_number,
                    ty,
                    capabilities,
                    supported_buttons,
                },
            )
            &&& final(batcher)@ == (BatcherView {
                gamepads: final(batcher)@.gamepads,
                ..old(batcher)@
            })
            &&& final(batcher)@.gamepads@ == old(batcher)@.gamepads@.insert(controller_number)
        } else {
            &&& packet is None
            &&& final(batcher)@ == old(batcher)@
        },
{
    if controller_number < 16 {
        lemma_plus(old(batcher)@.gamepads, controller_number);
    }
}

/// The state of a controller that is connected is sent at once and as it was
/// reported, along with which controllers are connected.
pub proof fn law_controller_state_is_sent_as_reported(
    batcher: &mut InputBatcher,
    controller_number: u8,
    pressed_buttons: ControllerButtons,
    left_trigger: FloatBits,
    right_trigger: FloatBits,
    left_stick_x: FloatBits,
    left_stick_y: FloatBits,
    right_stick_x: FloatBits,
    right_stick_y: FloatBits,
    packet: Option<ControlPacket>,
)
    requires
        ({
            let input = ClientInputEvent::ControllerState {
                controller_number,
                pressed_buttons,
                left_trigger,
                right_trigger,
                left_stick_x,
                left_stick_y,
                right_stick_x,
                right_stick_y,
            };
            call_ensures(InputBatcher::batch_input, (batcher, input), packet) || call_ensures(
                InputBatcher::convert_input,
                (batcher, input),
                packet,
            )
        }),
    ensures
        final(batcher)@ == old(batcher)@,
        packet == if old(batcher)@.gamepads@.contains(controller_number) {
            Some(
                ControlPacket::ControllerState {
                    active_gamepad_mask: old(batcher)@.gamepads,
                    controller_number: controller_number as i16,
                    buttons: pressed_buttons,
                    left_trigger,
                    right_trigger,
                    left_stick_x,
                    left_stick_y,
                    right_stick_x,
                    right_stick_y,
                },
            )
        } else {
            None
        },
{
}

/// A controller that is connected is disconnected by telling that it is at rest
/// and not among those that are connected. Otherwise nothing happens.
pub proof fn law_controller_goes_at_rest(
    batcher: &mut InputBatcher,
    controller_number: u8,
    packet: Option<ControlPacket>,
)
    requires
        ({
            let input = ClientInputEvent::ControllerDisconnect { controller_number };
            call_ensures(InputBatcher::batch_input, (batcher, input), packet) || call_ensures(
                InputBatcher::convert_input,
                (batcher, input),
                packet,
            )
        }),
    ensures
        if old(batcher)@.gamepads@.contains(controller_number) {
            &&& final(batcher)@ == (BatcherView {
                gamepads: final(batcher)@.gamepads,
                ..old(batcher)@
            })
            &&& final(batcher)@.gamepads@ == old(batcher)@.gamepads@.remove(controller_number)
            &&& packet == Some(
                ControlPacket::ControllerState {
                    active_gamepad_mask: final(batcher)@.gamepads,
                    controller_number: controller_number as i16,
                    buttons: ControllerButtons(0),
                    left_trigger: FloatBits(0),
                    right_trigger: FloatBits(0),
                    left_stick_x: FloatBits(0),
                    left_stick_y: FloatBits(0),
                    right_stick_x: FloatBits(0),
                    right_stick_y: FloatBits(0),
                },
            )
        } else {
            &&& packet is None
            &&& final(batcher)@ == old(batcher)@
        },
{
    if controller_number < 16 {
        lemma_minus(old(batcher)@.gamepads, controller_number);
    }
}

/// A movement that is converted by itself is reported as it is.
pub proof fn law_movements_are_converted_as_reported(
    batcher: &mut InputBatcher,
    input: ClientInputEvent,
    packet: Option<ControlPacket>,
)
    requires
        call_ensures(InputBatcher::convert_input, (batcher, input), packet),
    ensures
        input matches ClientInputEvent::MouseMoveRelative { delta_x, delta_y } ==> packet == Some(
            ControlPacket::MouseMoveRelative { delta_x, delta_y },
        ) && final(batcher)@ == old(batcher)@,
        input matches ClientInputEvent::MouseMoveAbsolute { x, y, reference_width, reference_height }
            ==> packet == Some(
            ControlPacket::MouseMoveAbsolute { x, y, unused: 0, reference_width, reference_height },
        ) && final(batcher)@ == old(batcher)@,
        input matches ClientInputEvent::MouseScrollVertical { scroll_y } ==> packet == Some(
            ControlPacket::MouseScroll {
                scroll_amount_1: scroll_y,
                scroll_amount_2: scroll_y,
                zero: 0,
            },
        ) && final(batcher)@ == old(batcher)@,
        input matches ClientInputEvent::MouseScrollHorizontal { scroll_x } ==> packet == Some(
            ControlPacket::MouseHorizontalScroll { scroll_amount: scroll_x },
        ) && final(batcher)@ == old(batcher)@,
{
}

/// Whether `total` is the sum of two amounts, or the end of the range that the
/// sum lies beyond.
pub open spec fn adds_up(a: i16, b: i16, total: i16) -> bool {
    &&& -0x8000 <= a + b <= 0x7FFF ==> total == a + b
    &&& a + b > 0x7FFF ==> total == 0x7FFF
    &&& a + b < -0x8000 ==> total == -0x8000
}

/// Movements are collected, each kind by itself, and nothing is sent at once:
/// amounts add up, and the last position counts.
pub proof fn law_movements_are_collected(
    batcher: &mut InputBatcher,
    input: ClientInputEvent,
    packet: Option<ControlPacket>,
)
    requires
        call_ensures(InputBatcher::batch_input, (batcher, input), packet),
    ensures
        input matches ClientInputEvent::MouseMoveRelative { delta_x, delta_y } ==> {
            let after = final(batcher)@;
            &&& packet is None
            &&& adds_up(old(batcher)@.mouse_delta_x, delta_x, after.mouse_delta_x)
            &&& adds_up(old(batcher)@.mouse_delta_y, delta_y, after.mouse_delta_y)
            &&& after == (BatcherView {
                mouse_delta_x: after.mouse_delta_x,
                mouse_delta_y: after.mouse_delta_y,
                ..old(batcher)@
            })
        },
        input matches ClientInputEvent::MouseMoveAbsolute { x, y, reference_width, reference_height }
            ==> {
            &&& packet is None
            &&& final(batcher)@ == (BatcherView {
                mouse_absolute_x: x,
                mouse_absolute_y: y,
                mouse_absolute_reference_width: reference_width,
                mouse_absolute_reference_height: reference_height,
                ..old(batcher)@
            })
        },
        input matches ClientInputEvent::MouseScrollVertical { scroll_y } ==> {
            let after = final(batcher)@;
            &&& packet is None
            &&& adds_up(old(batcher)@.mouse_scroll_y, scroll_y, after.mouse_scroll_y)
            &&& after == (BatcherView { mouse_scroll_y: after.mouse_scroll_y, ..old(batcher)@ })
        },
        input matches ClientInputEvent::MouseScrollHorizontal { scroll_x } ==> {
            let after = final(batcher)@;
            &&& packet is None
            &&& adds_up(old(batcher)@.mouse_scroll_x, scroll_x, after.mouse_scroll_x)
            &&& after == (BatcherView { mouse_scroll_x: after.mouse_scroll_x, ..old(batcher)@ })
        },
{
}

/// One for something that holds.
pub open spec fn one_for(holds: bool) -> int {
    if holds {
        1
    } else {
        0
    }
}

/// Taking out what was collected gives one packet for each kind of movement that
/// there was, and no others: the distance, the position, sideways scrolling and
/// scrolling, in this order. After it nothing is collected.
pub proof fn law_taking_out_gives_what_was_collected(
    batcher: &mut InputBatcher,
    packets: Vec<ControlPacket>,
)
    requires
        call_ensures(InputBatcher::remove_batched_inputs, (batcher,), packets),
    ensures
        ({
            let held = old(batcher)@;
            let moved = held.mouse_delta_x != 0 || held.mouse_delta_y != 0;
            let placed = held.mouse_absolute_reference_width != 0
                || held.mouse_absolute_reference_height != 0;
            let sideways = held.mouse_scroll_x != 0;
            let scrolled = held.mouse_scroll_y != 0;
            &&& packets@.len() == one_for(moved) + one_for(placed) + one_for(sideways) + one_for(
                scrolled,
            )
            &&& moved ==> packets@[0] == (ControlPacket::MouseMoveRelative {
                delta_x: held.mouse_delta_x,
                delta_y: held.mouse_delta_y,
            })
            &&& placed ==> packets@[one_for(moved)] == (ControlPacket::MouseMoveAbsolute {
                x: held.mouse_absolute_x,
                y: held.mouse_absolute_y,
                unused: 0,
                reference_width: held.mouse_absolute_reference_width,
                reference_height: held.mouse_absolute_reference_height,
            })
            &&& sideways ==> packets@[one_for(moved) + one_for(placed)] == (
            ControlPacket::MouseHorizontalScroll { scroll_amount: held.mouse_scroll_x })
            &&& scrolled ==> packets@[one_for(moved) + one_for(placed) + one_for(sideways)] == (
            ControlPacket::MouseScroll {
                scroll_amount_1: held.mouse_scroll_y,
                scroll_amount_2: 0,
                zero: 0,
            })
            &&& final(batcher)@ == (BatcherView {
                mouse_delta_x: 0,
                mouse_delta_y: 0,
                mouse_absolute_reference_width: 0,
                mouse_absolute_reference_height: 0,
                mouse_scroll_x: 0,
                mouse_scroll_y: 0,
                ..held
            })
        }),
{
}

/// There is something to send exactly if some movement was collected.
pub proof fn law_dirty_means_collected(batcher: &InputBatcher, dirty: bool)
    requires
        call_ensures(InputBatcher::is_dirty, (batcher,), dirty),
    ensures
        dirty <==> {
            ||| batcher@.mouse_delta_x != 0
            ||| batcher@.mouse_delta_y != 0
            ||| batcher@.mouse_absolute_reference_width != 0
            ||| batcher@.mouse_absolute_reference_height != 0
            ||| batcher@.mouse_scroll_x != 0
            ||| batcher@.mouse_scroll_y != 0
        },
{
}

/// What one movement of a new batcher is sent as: batching and taking out
/// neither lose nor change it.
pub proof fn law_collected_movement_is_sent_as_reported(
    fresh: InputBatcher,
    batching: &mut InputBatcher,
    input: ClientInputEvent,
    at_once: Option<ControlPacket>,
    taking: &mut InputBatcher,
    packets: Vec<ControlPacket>,
)
    requires
        call_ensures(<InputBatcher as Default>::default, (), fresh),
        *old(batching) == fresh,
        call_ensures(InputBatcher::batch_input, (batching, input), at_once),
        *old(taking) == *final(batching),
        call_ensures(InputBatcher::remove_batched_inputs, (taking,), packets),
    ensures
        input matches ClientInputEvent::MouseMoveRelative { delta_x, delta_y } ==> packets@ == if
            delta_x == 0 && delta_y == 0 {
            seq![]
        } else {
            seq![ControlPacket::MouseMoveRelative { delta_x, delta_y }]
        },
        input matches ClientInputEvent::MouseMoveAbsolute { x, y, reference_width, reference_height }
            ==> packets@ == if reference_width == 0 && reference_height == 0 {
            seq![]
        } else {
            seq![
                ControlPacket::MouseMoveAbsolute {
                    x,
                    y,
                    unused: 0,
                    reference_width,
                    reference_height,
                },
            ]
        },
        input matches ClientInputEvent::MouseScrollHorizontal { scroll_x } ==> packets@ == if
            scroll_x == 0 {
            seq![]
        } else {
            seq![ControlPacket::MouseHorizontalScroll { scroll_amount: scroll_x }]
        },
        input matches ClientInputEvent::MouseScrollVertical { scroll_y } ==> packets@ == if scroll_y
            == 0 {
            seq![]
        } else {
            seq![
                ControlPacket::MouseScroll {
                    scroll_amount_1: scroll_y,
                    scroll_amount_2: 0,
                    zero: 0,
                },
            ]
        },
        input is Touch || input is Pen || input is MouseButton || input is Keyboard
            || input is ControllerConnect || input is ControllerState
            || input is ControllerDisconnect ==> packets@ == Seq::<ControlPacket>::empty(),
{
}

/// A new batcher holds nothing: no key is down, no controller is connected and
/// no movement is collected.
pub proof fn law_new_batcher_holds_nothing(batcher: InputBatcher)
    requires
        call_ensures(<InputBatcher as Default>::default, (), batcher),
    ensures
        forall|key: u16| !#[trigger] batcher@.pressed_keys.contains(key),
        batcher@.gamepads.0 == 0,
        batcher@.mouse_delta_x == 0,
        batcher@.mouse_delta_y == 0,
        batcher@.mouse_absolute_reference_width == 0,
        batcher@.mouse_absolute_reference_height == 0,
        batcher@.mouse_scroll_x == 0,
        batcher@.mouse_scroll_y == 0,
{
}

} // verus!
