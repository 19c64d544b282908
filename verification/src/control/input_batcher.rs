//! Collects input so that it is sent at a steady pace.

use std::collections::HashSet;

use smallvec::SmallVec;
use vstd::prelude::*;

use crate::control::input::{
    ActiveGamepads, ControllerButtons, ControllerCapabilities, ControllerType, FloatBits, KeyAction,
    KeyCode, KeyFlags, KeyModifiers, MouseButton, MouseButtonAction, PenButtons, ToolType,
    TouchEventType, MAX_GAMEPADS,
};
use crate::control::packet::{ControlPacket, LI_ROT_UNKNOWN, LI_TILT_UNKNOWN};

verus! {

/// Something that an input device of the client reports.
#[derive(Debug, Clone, Copy)]
#[allow(inconsistent_fields)]
pub enum ClientInputEvent {
    Keyboard {
        action: KeyAction,
        flags: KeyFlags,
        key_code: KeyCode,
        modifiers: KeyModifiers,
    },
    MouseMoveRelative {
        delta_x: i16,
        delta_y: i16,
    },
    MouseMoveAbsolute {
        x: i16,
        y: i16,
        reference_width: i16,
        reference_height: i16,
    },
    MouseButton {
        action: MouseButtonAction,
        button: MouseButton,
    },
    MouseScrollVertical {
        scroll_y: i16,
    },
    /// Sunshine extension
    MouseScrollHorizontal {
        scroll_x: i16,
    },
    ControllerConnect {
        controller_number: u8,
        ty: ControllerType,
        capabilities: ControllerCapabilities,
        supported_buttons: ControllerButtons,
    },
    ControllerState {
        controller_number: u8,
        pressed_buttons: ControllerButtons,
        left_trigger: FloatBits,
        right_trigger: FloatBits,
        left_stick_x: FloatBits,
        left_stick_y: FloatBits,
        right_stick_x: FloatBits,
        right_stick_y: FloatBits,
    },
    ControllerDisconnect {
        controller_number: u8,
    },
    /// Sunshine Extension
    Touch {
        event_type: TouchEventType,
        rotation: Option<u16>,
        pointer_id: u32,
        x: FloatBits,
        y: FloatBits,
        pressure_or_distance: FloatBits,
        contact_area_minor: FloatBits,
        contact_area_major: FloatBits,
    },
    Pen {
        event_type: TouchEventType,
        tool_type: ToolType,
        buttons: PenButtons,
        x: FloatBits,
        y: FloatBits,
        pressure_or_distance: FloatBits,
        rotation: Option<u16>,
        tilt: Option<u8>,
        contact_area_minor: FloatBits,
        contact_area_major: FloatBits,
    },
}

/// A short list of packets, held in an outside `smallvec::SmallVec`, which
/// keeps up to four of them without allocating.
#[verifier::external_body]
pub struct PacketList {
    packets: SmallVec<[ControlPacket; 4]>,
}

/// The packets of a list, in order.
pub uninterp spec fn listed(list: PacketList) -> Seq<ControlPacket>;

/// Calls `smallvec::SmallVec::new`. Claims that the list is empty.
#[verifier::external_body]
fn empty_list() -> (list: PacketList)
    ensures
        listed(list) == Seq::<ControlPacket>::empty(),
{
    PacketList { packets: SmallVec::new() }
}

/// Calls `smallvec::SmallVec::push`. Claims that the packet is added at the
/// end; the precondition keeps the list within the room that it has without
/// allocating.
#[verifier::external_body]
fn push_packet(list: &mut PacketList, packet: ControlPacket)
    requires
        listed(*old(list)).len() < 4,
    ensures
        listed(*final(list)) == listed(*old(list)).push(packet),
{
    list.packets.push(packet)
}

/// Calls `smallvec::SmallVec::into_vec`. Claims that the packets keep their
/// order.
#[verifier::external_body]
fn into_packets(list: PacketList) -> (packets: Vec<ControlPacket>)
    ensures
        packets@ == listed(list),
{
    list.packets.into_vec()
}

/// What an [`InputBatcher`] holds.
#[verifier::ext_equal]
pub struct BatcherView {
    /// The codes of the keys that are held down.
    pub pressed_keys: Set<u16>,
    pub mouse_delta_x: i16,
    pub mouse_delta_y: i16,
    pub mouse_absolute_x: i16,
    pub mouse_absolute_y: i16,
    pub mouse_absolute_reference_width: i16,
    pub mouse_absolute_reference_height: i16,
    pub mouse_scroll_x: i16,
    pub mouse_scroll_y: i16,
    pub gamepads: ActiveGamepads,
}

impl BatcherView {
    /// Nothing held down, nothing collected, no controller.
    pub open spec fn empty() -> BatcherView {
        BatcherView {
            pressed_keys: Set::empty(),
            mouse_delta_x: 0,
            mouse_delta_y: 0,
            mouse_absolute_x: 0,
            mouse_absolute_y: 0,
            mouse_absolute_reference_width: 0,
            mouse_absolute_reference_height: 0,
            mouse_scroll_x: 0,
            mouse_scroll_y: 0,
            gamepads: ActiveGamepads(0),
        }
    }

    /// Whether the mouse moved by some amount.
    pub open spec fn moved(self) -> bool {
        self.mouse_delta_x != 0 || self.mouse_delta_y != 0
    }

    /// Whether the mouse was put somewhere.
    pub open spec fn placed(self) -> bool {
        self.mouse_absolute_reference_width != 0 || self.mouse_absolute_reference_height != 0
    }

    /// Whether there is something to send.
    pub open spec fn dirty(self) -> bool {
        self.moved() || self.placed() || self.mouse_scroll_x != 0 || self.mouse_scroll_y != 0
    }

    /// The same with everything that was collected taken out.
    pub open spec fn emptied(self) -> BatcherView {
        BatcherView {
            mouse_delta_x: 0,
            mouse_delta_y: 0,
            mouse_absolute_reference_width: 0,
            mouse_absolute_reference_height: 0,
            mouse_scroll_x: 0,
            mouse_scroll_y: 0,
            ..self
        }
    }

    /// The packets that send what was collected: moves first, then scrolling.
    pub open spec fn collected(self) -> Seq<ControlPacket> {
        some_packet(
            self.moved(),
            ControlPacket::MouseMoveRelative {
                delta_x: self.mouse_delta_x,
                delta_y: self.mouse_delta_y,
            },
        ) + some_packet(
            self.placed(),
            ControlPacket::MouseMoveAbsolute {
                x: self.mouse_absolute_x,
                y: self.mouse_absolute_y,
                unused: 0,
                reference_width: self.mouse_absolute_reference_width,
                reference_height: self.mouse_absolute_reference_height,
            },
        ) + some_packet(
            self.mouse_scroll_x != 0,
            ControlPacket::MouseHorizontalScroll { scroll_amount: self.mouse_scroll_x },
        ) + some_packet(
            self.mouse_scroll_y != 0,
            ControlPacket::MouseScroll {
                scroll_amount_1: self.mouse_scroll_y,
                scroll_amount_2: 0,
                zero: 0,
            },
        )
    }
}

/// One packet, or none.
pub open spec fn some_packet(send: bool, packet: ControlPacket) -> Seq<ControlPacket> {
    if send {
        seq![packet]
    } else {
        seq![]
    }
}

/// The sum of two movements, kept within the range of one.
pub open spec fn clamped_sum(a: i16, b: i16) -> i16 {
    if a + b > i16::MAX {
        i16::MAX
    } else if a + b < i16::MIN {
        i16::MIN
    } else {
        (a + b) as i16
    }
}

fn add_clamped(a: i16, b: i16) -> (sum: i16)
    ensures
        sum == clamped_sum(a, b),
{
    let sum: i32 = a as i32 + b as i32;
    if sum > i16::MAX as i32 {
        i16::MAX
    } else if sum < i16::MIN as i32 {
        i16::MIN
    } else {
        sum as i16
    }
}

/// What an event that is sent at once does, and the packet it makes.
///
/// A key is sent only when it changes between up and down. A controller must
/// be connected before its state is sent, and is connected and disconnected
/// once.
pub open spec fn converted(view: BatcherView, input: ClientInputEvent) -> (
    BatcherView,
    Option<ControlPacket>,
) {
    match input {
        ClientInputEvent::Keyboard { action, flags, key_code, modifiers } => {
            let is_pressed = action == KeyAction::Down;
            if is_pressed == view.pressed_keys.contains(key_code.0) {
                (view, None)
            } else {
                (
                    BatcherView {
                        pressed_keys: if is_pressed {
                            view.pressed_keys.insert(key_code.0)
                        } else {
                            view.pressed_keys.remove(key_code.0)
                        },
                        ..view
                    },
                    Some(ControlPacket::Keyboard { action, flags, key_code, modifiers, zero: 0 }),
                )
            }
        },
        ClientInputEvent::MouseMoveRelative { delta_x, delta_y } => (
            view,
            Some(ControlPacket::MouseMoveRelative { delta_x, delta_y }),
        ),
        ClientInputEvent::MouseMoveAbsolute { x, y, reference_width, reference_height } => (
            view,
            Some(
                ControlPacket::MouseMoveAbsolute {
                    x,
                    y,
                    unused: 0,
                    reference_width,
                    reference_height,
                },
            ),
        ),
        ClientInputEvent::MouseButton { action, button } => (
            view,
            Some(ControlPacket::MouseButton { action, button }),
        ),
        ClientInputEvent::MouseScrollVertical { scroll_y } => (
            view,
            Some(
                ControlPacket::MouseScroll {
                    scroll_amount_1: scroll_y,
                    scroll_amount_2: scroll_y,
                    zero: 0,
                },
            ),
        ),
        ClientInputEvent::MouseScrollHorizontal { scroll_x } => (
            view,
            Some(ControlPacket::MouseHorizontalScroll { scroll_amount: scroll_x }),
        ),
        ClientInputEvent::ControllerConnect {
            controller_number,
            ty,
            capabilities,
            supported_buttons,
        } => {
            if controller_number >= MAX_GAMEPADS || view.gamepads@.contains(controller_number) {
                (view, None)
            } else {
                (
                    BatcherView { gamepads: view.gamepads.plus(controller_number), ..view },
                    Some(
                        ControlPacket::ControllerArrival {
                            controller_number,
                            ty,
                            capabilities,
                            supported_buttons,
                        },
                    ),
                )
            }
        },
        ClientInputEvent::ControllerState {
            controller_number,
            pressed_buttons,
            left_trigger,
            right_trigger,
            left_stick_x,
            left_stick_y,
            right_stick_x,
            right_stick_y,
        } => {
            if !view.gamepads@.contains(controller_number) {
                (view, None)
            } else {
                (
                    view,
                    Some(
                        ControlPacket::ControllerState {
                            active_gamepad_mask: view.gamepads,
                            controller_number: controller_number as i16,
                            buttons: pressed_buttons,
                            left_trigger,
                            right_trigger,
                            left_stick_x,
                            left_stick_y,
                            right_stick_x,
                            right_stick_y,
                        },
                    ),
                )
            }
        },
        ClientInputEvent::ControllerDisconnect { controller_number } => {
            if !view.gamepads@.contains(controller_number) {
                (view, None)
            } else {
                let gamepads = view.gamepads.minus(controller_number);
                (
                    BatcherView { gamepads, ..view },
                    Some(
                        ControlPacket::ControllerState {
                            active_gamepad_mask: gamepads,
                            controller_number: controller_number as i16,
                            buttons: ControllerButtons(0),
                            left_trigger: FloatBits(0),
                            right_trigger: FloatBits(0),
                            left_stick_x: FloatBits(0),
                            left_stick_y: FloatBits(0),
                            right_stick_x: FloatBits(0),
                            right_stick_y: FloatBits(0),
                        },
                    ),
                )
            }
        },
        ClientInputEvent::Touch {
            event_type,
            rotation,
            pointer_id,
            x,
            y,
            pressure_or_distance,
            contact_area_minor,
            contact_area_major,
        } => (
            view,
            Some(
                ControlPacket::Touch {
                    event_type,
                    reserved: 0,
                    rotation: match rotation {
                        Some(rotation) => rotation,
                        None => LI_ROT_UNKNOWN,
                    },
                    pointer_id,
                    x,
                    y,
                    pressure_or_distance,
                    contact_area_minor,
                    contact_area_major,
                },
            ),
        ),
        ClientInputEvent::Pen {
            event_type,
            tool_type,
            buttons,
            x,
            y,
            pressure_or_distance,
            rotation,
            tilt,
            contact_area_minor,
            contact_area_major,
        } => (
            view,
            Some(
                ControlPacket::Pen {
                    event_type,
                    tool_type,
                    buttons,
                    zero: 0,
                    x,
                    y,
                    pressure_or_distance,
                    rotation: match rotation {
                        Some(rotation) => rotation,
                        None => LI_ROT_UNKNOWN,
                    },
                    tilt: match tilt {
                        Some(tilt) => tilt,
                        None => LI_TILT_UNKNOWN,
                    },
                    zero2: 0,
                    contact_area_minor,
                    contact_area_major,
                },
            ),
        ),
    }
}

/// What an event does: movements of the mouse and the wheel are collected, all
/// else is sent at once.
pub open spec fn after_input(view: BatcherView, input: ClientInputEvent) -> (
    BatcherView,
    Option<ControlPacket>,
) {
    match input {
        ClientInputEvent::MouseMoveRelative { delta_x, delta_y } => (
            BatcherView {
                mouse_delta_x: clamped_sum(view.mouse_delta_x, delta_x),
                mouse_delta_y: clamped_sum(view.mouse_delta_y, delta_y),
                ..view
            },
            None,
        ),
        ClientInputEvent::MouseMoveAbsolute { x, y, reference_width, reference_height } => (
            BatcherView {
                mouse_absolute_x: x,
                mouse_absolute_y: y,
                mouse_absolute_reference_width: reference_width,
                mouse_absolute_reference_height: reference_height,
                ..view
            },
            None,
        ),
        ClientInputEvent::MouseScrollVertical { scroll_y } => (
            BatcherView { mouse_scroll_y: clamped_sum(view.mouse_scroll_y, scroll_y), ..view },
            None,
        ),
        ClientInputEvent::MouseScrollHorizontal { scroll_x } => (
            BatcherView { mouse_scroll_x: clamped_sum(view.mouse_scroll_x, scroll_x), ..view },
            None,
        ),
        input => converted(view, input),
    }
}

/// Collects movements of the mouse and the wheel between two sends, and keeps
/// track of what is held down and connected.
#[derive(Debug)]
pub struct InputBatcher {
    // pressed keys
    pressed_keys: HashSet<u16>,
    // mouse move relative
    mouse_delta_x: i16,
    mouse_delta_y: i16,
    // mouse move absolute
    mouse_absolute_x: i16,
    mouse_absolute_y: i16,
    mouse_absolute_reference_width: i16,
    mouse_absolute_reference_height: i16,
    // mouse scroll
    mouse_scroll_x: i16,
    mouse_scroll_y: i16,
    // connected controllers
    gamepads: ActiveGamepads,
}

impl View for InputBatcher {
    type V = BatcherView;

    closed spec fn view(&self) -> BatcherView {
        BatcherView {
            pressed_keys: self.pressed_keys@,
            mouse_delta_x: self.mouse_delta_x,
            mouse_delta_y: self.mouse_delta_y,
            mouse_absolute_x: self.mouse_absolute_x,
            mouse_absolute_y: self.mouse_absolute_y,
            mouse_absolute_reference_width: self.mouse_absolute_reference_width,
            mouse_absolute_reference_height: self.mouse_absolute_reference_height,
            mouse_scroll_x: self.mouse_scroll_x,
            mouse_scroll_y: self.mouse_scroll_y,
            gamepads: self.gamepads,
        }
    }
}

impl Default for InputBatcher {
    /// A batcher that has seen no input.
    fn default() -> (batcher: InputBatcher)
        ensures
            batcher@ == BatcherView::empty(),
    {
        InputBatcher {
            pressed_keys: HashSet::new(),
            mouse_delta_x: 0,
            mouse_delta_y: 0,
            mouse_absolute_x: 0,
            mouse_absolute_y: 0,
            mouse_absolute_reference_width: 0,
            mouse_absolute_reference_height: 0,
            mouse_scroll_x: 0,
            mouse_scroll_y: 0,
            gamepads: ActiveGamepads::empty(),
        }
    }
}

impl InputBatcher {
    /// Takes an event in and returns the packet that has to be sent at once, if
    /// any.
    pub fn batch_input(&mut self, input: ClientInputEvent) -> (dispatch_now: Option<ControlPacket>)
        ensures
            (final(self)@, dispatch_now) == after_input(old(self)@, input),
    {
        match input {
            ClientInputEvent::MouseMoveRelative { delta_x, delta_y } => {
                self.mouse_delta_x = add_clamped(self.mouse_delta_x, delta_x);
                self.mouse_delta_y = add_clamped(self.mouse_delta_y, delta_y);
                None
            },
            ClientInputEvent::MouseMoveAbsolute { x, y, reference_width, reference_height } => {
                self.mouse_absolute_x = x;
                self.mouse_absolute_y = y;
                self.mouse_absolute_reference_width = reference_width;
                self.mouse_absolute_reference_height = reference_height;
                None
            },
            ClientInputEvent::MouseScrollVertical { scroll_y } => {
                self.mouse_scroll_y = add_clamped(self.mouse_scroll_y, scroll_y);
                None
            },
            ClientInputEvent::MouseScrollHorizontal { scroll_x } => {
                self.mouse_scroll_x = add_clamped(self.mouse_scroll_x, scroll_x);
                None
            },
            input => self.convert_input(input),
        }
    }

    /// Turns an event into the packet that reports it.
    pub fn convert_input(&mut self, input: ClientInputEvent) -> (packet: Option<ControlPacket>)
        ensures
            (final(self)@, packet) == converted(old(self)@, input),
    {
        match input {
            ClientInputEvent::Keyboard { action, flags, key_code, modifiers } => {
                let is_pressed = match action {
                    KeyAction::Down => true,
                    KeyAction::Up => false,
                };
                let was_pressed = self.pressed_keys.contains(&key_code.0);
                // wolf hates it when you send multiple key press / key release events because some
                // keys can get stuck
                // -> only send on changes
                if is_pressed == was_pressed {
                    return None;
                }
                if is_pressed {
                    self.pressed_keys.insert(key_code.0);
                } else {
                    self.pressed_keys.remove(&key_code.0);
                }
                Some(ControlPacket::Keyboard { action, flags, key_code, modifiers, zero: 0 })
            },
            ClientInputEvent::MouseMoveRelative { delta_x, delta_y } => {
                Some(ControlPacket::MouseMoveRelative { delta_x, delta_y })
            },
            ClientInputEvent::MouseMoveAbsolute { x, y, reference_width, reference_height } => {
                Some(
                    ControlPacket::MouseMoveAbsolute {
                        x,
                        y,
                        unused: 0,
                        reference_width,
                        reference_height,
                    },
                )
            },
            ClientInputEvent::MouseButton { action, button } => {
                Some(ControlPacket::MouseButton { action, button })
            },
            ClientInputEvent::MouseScrollVertical { scroll_y } => {
                Some(
                    ControlPacket::MouseScroll {
                        scroll_amount_1: scroll_y,
                        scroll_amount_2: scroll_y,
                        zero: 0,
                    },
                )
            },
            ClientInputEvent::MouseScrollHorizontal { scroll_x } => {
                Some(ControlPacket::MouseHorizontalScroll { scroll_amount: scroll_x })
            },
            ClientInputEvent::ControllerConnect {
                controller_number,
                ty,
                capabilities,
                supported_buttons,
            } => {
                if controller_number >= MAX_GAMEPADS || self.gamepads.contains(controller_number) {
                    return None;
                }
                self.gamepads = self.gamepads.with(controller_number);
                Some(
                    ControlPacket::ControllerArrival {
                        controller_number,
                        ty,
                        capabilities,
                        supported_buttons,
                    },
                )
            },
            ClientInputEvent::ControllerState {
                controller_number,
                pressed_buttons,
                left_trigger,
                right_trigger,
                left_stick_x,
                left_stick_y,
                right_stick_x,
                right_stick_y,
            } => {
                if controller_number >= MAX_GAMEPADS || !self.gamepads.contains(
                    controller_number,
                ) {
                    return None;
                }
                Some(
                    ControlPacket::controller_state(
                        self.gamepads,
                        controller_number as i16,
                        pressed_buttons,
                        left_trigger,
                        right_trigger,
                        left_stick_x,
                        left_stick_y,
                        right_stick_x,
                        right_stick_y,
                    ),
                )
            },
            ClientInputEvent::ControllerDisconnect { controller_number } => {
                if controller_number >= MAX_GAMEPADS || !self.gamepads.contains(
                    controller_number,
                ) {
                    return None;
                }
                self.gamepads = self.gamepads.without(controller_number);
                // sending an empty event with the controller not in the mask will disconnect the
                // controller
                Some(
                    ControlPacket::controller_state(
                        self.gamepads,
                        controller_number as i16,
                        ControllerButtons::empty(),
                        FloatBits::zero(),
                        FloatBits::zero(),
                        FloatBits::zero(),
                        FloatBits::zero(),
                        FloatBits::zero(),
                        FloatBits::zero(),
                    ),
                )
            },
            ClientInputEvent::Touch {
                event_type,
                rotation,
                pointer_id,
                x,
                y,
                pressure_or_distance,
                contact_area_minor,
                contact_area_major,
            } => {
                Some(
                    ControlPacket::Touch {
                        event_type,
                        reserved: 0,
                        rotation: rotation.unwrap_or(LI_ROT_UNKNOWN),
                        pointer_id,
                        x,
                        y,
                        pressure_or_distance,
                        contact_area_minor,
                        contact_area_major,
                    },
                )
            },
            ClientInputEvent::Pen {
                event_type,
                tool_type,
                buttons,
                x,
                y,
                pressure_or_distance,
                rotation,
                tilt,
                contact_area_minor,
                contact_area_major,
            } => {
                Some(
                    ControlPacket::Pen {
                        event_type,
                        tool_type,
                        buttons,
                        zero: 0,
                        x,
                        y,
                        pressure_or_distance,
                        rotation: rotation.unwrap_or(LI_ROT_UNKNOWN),
                        tilt: tilt.unwrap_or(LI_TILT_UNKNOWN),
                        zero2: 0,
                        contact_area_minor,
                        contact_area_major,
                    },
                )
            },
        }
    }

    /// Whether something was collected that has not been sent.
    pub fn is_dirty(&self) -> (dirty: bool)
        ensures
            dirty == self@.dirty(),
    {
        let mut is_dirty = false;
        // mouse relative
        if self.mouse_delta_x != 0 || self.mouse_delta_y != 0 {
            is_dirty = true;
        }
        // mouse absolute
        if self.mouse_absolute_reference_width != 0 || self.mouse_absolute_reference_height != 0 {
            is_dirty = true;
        }
        // mouse scroll
        if self.mouse_scroll_x != 0 || self.mouse_scroll_y != 0 {
            is_dirty = true;
        }
        is_dirty
    }

    /// Takes out everything that was collected, as packets in the order in
    /// which they are to be sent.
    pub fn remove_batched_inputs(&mut self) -> (packets: Vec<ControlPacket>)
        ensures
            packets@ == old(self)@.collected(),
            final(self)@ == old(self)@.emptied(),
    {
        let mut packets = empty_list();
        // mouse relative
        if self.mouse_delta_x != 0 || self.mouse_delta_y != 0 {
            push_packet(
                &mut packets,
                ControlPacket::MouseMoveRelative {
                    delta_x: self.mouse_delta_x,
                    delta_y: self.mouse_delta_y,
                },
            );
            self.mouse_delta_x = 0;
            self.mouse_delta_y = 0;
        }
        // mouse absolute
        if self.mouse_absolute_reference_width != 0 || self.mouse_absolute_reference_height != 0 {
            push_packet(
                &mut packets,
                ControlPacket::MouseMoveAbsolute {
                    x: self.mouse_absolute_x,
                    y: self.mouse_absolute_y,
                    unused: 0,
                    reference_width: self.mouse_absolute_reference_width,
                    reference_height: self.mouse_absolute_reference_height,
                },
            );
            self.mouse_absolute_reference_width = 0;
            self.mouse_absolute_reference_height = 0;
        }
        // mouse scroll
        if self.mouse_scroll_x != 0 {
            push_packet(
                &mut packets,
                ControlPacket::MouseHorizontalScroll { scroll_amount: self.mouse_scroll_x },
            );
            self.mouse_scroll_x = 0;
        }
        if self.mouse_scroll_y != 0 {
            push_packet(
                &mut packets,
                ControlPacket::MouseScroll {
                    scroll_amount_1: self.mouse_scroll_y,
                    scroll_amount_2: 0,
                    zero: 0,
                },
            );
            self.mouse_scroll_y = 0;
        }
        assert(listed(packets) =~= old(self)@.collected());
        into_packets(packets)
    }
}

} // verus!
