//! The packets of the control stream.

use vstd::prelude::*;

use crate::control::input::{
    ActiveGamepads, ControllerButtons, ControllerCapabilities, ControllerType, FloatBits, KeyAction,
    KeyCode, KeyFlags, KeyModifiers, MouseButton, MouseButtonAction, PenButtons, ToolType,
    TouchEventType,
};

verus! {

/// The rotation of a touch or pen whose rotation is not known.
pub const LI_ROT_UNKNOWN: u16 = 0xFFFF;

/// The tilt of a pen whose tilt is not known.
pub const LI_TILT_UNKNOWN: u8 = 0xFF;

/// A packet of the control stream.
#[derive(Debug, PartialEq, Eq)]
#[allow(inconsistent_fields)]
pub enum ControlPacket {
    PeriodicPing,
    RequestIdr,
    ServerTermination {
        reason: u32,
    },
    Keyboard {
        action: KeyAction,
        flags: KeyFlags,
        key_code: KeyCode,
        modifiers: KeyModifiers,
        zero: u16,
    },
    MouseMoveRelative {
        delta_x: i16,
        delta_y: i16,
    },
    MouseMoveAbsolute {
        x: i16,
        y: i16,
        unused: i16,
        reference_width: i16,
        reference_height: i16,
    },
    MouseButton {
        action: MouseButtonAction,
        button: MouseButton,
    },
    MouseScroll {
        scroll_amount_1: i16,
        scroll_amount_2: i16,
        zero: i16,
    },
    MouseHorizontalScroll {
        scroll_amount: i16,
    },
    ControllerArrival {
        controller_number: u8,
        ty: ControllerType,
        capabilities: ControllerCapabilities,
        supported_buttons: ControllerButtons,
    },
    ControllerState {
        active_gamepad_mask: ActiveGamepads,
        controller_number: i16,
        buttons: ControllerButtons,
        left_trigger: FloatBits,
        right_trigger: FloatBits,
        left_stick_x: FloatBits,
        left_stick_y: FloatBits,
        right_stick_x: FloatBits,
        right_stick_y: FloatBits,
    },
    Touch {
        event_type: TouchEventType,
        reserved: u8,
        rotation: u16,
        pointer_id: u32,
        x: FloatBits,
        y: FloatBits,
        pressure_or_distance: FloatBits,
        contact_area_minor: FloatBits,
        contact_area_major: FloatBits,
    },
    Pen {
        event_type: TouchEventType,
        tool_type: ToolType,
        buttons: PenButtons,
        zero: u8,
        x: FloatBits,
        y: FloatBits,
        pressure_or_distance: FloatBits,
        rotation: u16,
        tilt: u8,
        zero2: u8,
        contact_area_minor: FloatBits,
        contact_area_major: FloatBits,
    },
    /// A packet that the stream only passes on, as it is on the wire.
    Other {
        packet_type: u16,
        payload: Vec<u8>,
    },
}

impl ControlPacket {
    /// The state of one controller, which also says which controllers there
    /// are.
    pub fn controller_state(
        active_gamepad_mask: ActiveGamepads,
        controller_number: i16,
        buttons: ControllerButtons,
        left_trigger: FloatBits,
        right_trigger: FloatBits,
        left_stick_x: FloatBits,
        left_stick_y: FloatBits,
        right_stick_x: FloatBits,
        right_stick_y: FloatBits,
    ) -> (packet: ControlPacket)
        ensures
            packet == (ControlPacket::ControllerState {
                active_gamepad_mask,
                controller_number,
                buttons,
                left_trigger,
                right_trigger,
                left_stick_x,
                left_stick_y,
                right_stick_x,
                right_stick_y,
            }),
    {
        ControlPacket::ControllerState {
            active_gamepad_mask,
            controller_number,
            buttons,
            left_trigger,
            right_trigger,
            left_stick_x,
            left_stick_y,
            right_stick_x,
            right_stick_y,
        }
    }
}

} // verus!
