use moonlight_stream::control::input::{
    ActiveGamepads, ControllerButtons, ControllerCapabilities, ControllerType, FloatBits,
    KeyAction, KeyCode, KeyFlags, KeyModifiers, MouseButton, MouseButtonAction, PenButtons,
    ToolType, TouchEventType,
};
use moonlight_stream::control::input_batcher::{ClientInputEvent, InputBatcher};
use moonlight_stream::control::packet::ControlPacket;

fn connect(controller_number: u8) -> ClientInputEvent {
    ClientInputEvent::ControllerConnect {
        controller_number,
        ty: ControllerType::Unknown,
        capabilities: ControllerCapabilities::empty(),
        supported_buttons: ControllerButtons::empty(),
    }
}

fn key(action: KeyAction, key_code: u16) -> ClientInputEvent {
    ClientInputEvent::Keyboard {
        action,
        flags: KeyFlags(1),
        key_code: KeyCode(key_code),
        modifiers: KeyModifiers(2),
    }
}

fn state(controller_number: u8) -> ClientInputEvent {
    ClientInputEvent::ControllerState {
        controller_number,
        pressed_buttons: ControllerButtons(0x1000),
        left_trigger: FloatBits(0.25f32.to_bits()),
        right_trigger: FloatBits(0.5f32.to_bits()),
        left_stick_x: FloatBits(1.0f32.to_bits()),
        left_stick_y: FloatBits((-1.0f32).to_bits()),
        right_stick_x: FloatBits(0.0f32.to_bits()),
        right_stick_y: FloatBits(0.75f32.to_bits()),
    }
}

#[test]
fn connected_controller_can_disconnect() {
    let mut batcher = InputBatcher::default();

    let connected: Vec<ControlPacket> = batcher
        .batch_input(ClientInputEvent::ControllerConnect {
            controller_number: 0,
            ty: ControllerType::Unknown,
            capabilities: ControllerCapabilities::empty(),
            supported_buttons: ControllerButtons::empty(),
        })
        .into_iter()
        .collect();
    assert!(matches!(
        connected.as_slice(),
        [ControlPacket::ControllerArrival { .. }]
    ));

    let disconnected: Vec<ControlPacket> = batcher
        .batch_input(ClientInputEvent::ControllerDisconnect {
            controller_number: 0,
        })
        .into_iter()
        .collect();
    assert!(matches!(
        disconnected.as_slice(),
        [ControlPacket::ControllerState {
            active_gamepad_mask,
            controller_number: 0,
            ..
        }] if active_gamepad_mask.is_empty()
    ));
}

#[test]
fn a_disconnected_controller_can_connect_again() {
    let mut batcher = InputBatcher::default();
    for _ in 0..3 {
        assert!(matches!(
            batcher.batch_input(connect(6)),
            Some(ControlPacket::ControllerArrival {
                controller_number: 6,
                ..
            })
        ));
        assert!(batcher
            .batch_input(ClientInputEvent::ControllerDisconnect {
                controller_number: 6,
            })
            .is_some());
    }
}

#[test]
fn key_packets_alternate() {
    let mut batcher = InputBatcher::default();
    let mut sent = Vec::new();
    for action in [
        KeyAction::Up,
        KeyAction::Down,
        KeyAction::Down,
        KeyAction::Up,
        KeyAction::Up,
        KeyAction::Down,
    ] {
        batcher.batch_input(ClientInputEvent::MouseMoveRelative {
            delta_x: 1,
            delta_y: 1,
        });
        if let Some(ControlPacket::Keyboard { action, .. }) = batcher.batch_input(key(action, 65)) {
            sent.push(action);
        }
        assert!(batcher.is_dirty());
        batcher.remove_batched_inputs();
    }
    assert_eq!(sent, vec![KeyAction::Down, KeyAction::Up, KeyAction::Down]);
}

#[test]
fn controller_numbers_are_local_to_each_control_stream() {
    for _ in 0..3 {
        let mut batcher = InputBatcher::default();
        let packets: Vec<ControlPacket> = batcher
            .batch_input(ClientInputEvent::ControllerConnect {
                controller_number: 0,
                ty: ControllerType::Unknown,
                capabilities: ControllerCapabilities::empty(),
                supported_buttons: ControllerButtons::empty(),
            })
            .into_iter()
            .collect();

        assert!(matches!(
            packets.as_slice(),
            [ControlPacket::ControllerArrival {
                controller_number: 0,
                ..
            }]
        ));
    }
}

#[test]
fn keys_are_sent_when_they_change() {
    let mut batcher = InputBatcher::default();
    assert_eq!(batcher.batch_input(key(KeyAction::Up, 65)), None);
    assert_eq!(
        batcher.batch_input(key(KeyAction::Down, 65)),
        Some(ControlPacket::Keyboard {
            action: KeyAction::Down,
            flags: KeyFlags(1),
            key_code: KeyCode(65),
            modifiers: KeyModifiers(2),
            zero: 0,
        })
    );
    assert_eq!(batcher.batch_input(key(KeyAction::Down, 65)), None);
    assert!(batcher.batch_input(key(KeyAction::Down, 66)).is_some());
    assert!(batcher.batch_input(key(KeyAction::Up, 65)).is_some());
    assert_eq!(batcher.batch_input(key(KeyAction::Up, 65)), None);
    assert!(!batcher.is_dirty());
}

#[test]
fn movements_are_collected_and_sent_in_order() {
    let mut batcher = InputBatcher::default();
    let inputs = [
        ClientInputEvent::MouseScrollVertical { scroll_y: -3 },
        ClientInputEvent::MouseScrollHorizontal { scroll_x: 120 },
        ClientInputEvent::MouseMoveAbsolute {
            x: 1,
            y: 2,
            reference_width: 1920,
            reference_height: 1080,
        },
        ClientInputEvent::MouseMoveAbsolute {
            x: 3,
            y: 4,
            reference_width: 1280,
            reference_height: 720,
        },
        ClientInputEvent::MouseMoveRelative {
            delta_x: 5,
            delta_y: -6,
        },
        ClientInputEvent::MouseMoveRelative {
            delta_x: 7,
            delta_y: 1,
        },
    ];
    for input in inputs {
        assert_eq!(batcher.batch_input(input), None);
        assert!(batcher.is_dirty());
    }
    assert_eq!(
        batcher.remove_batched_inputs(),
        vec![
            ControlPacket::MouseMoveRelative {
                delta_x: 12,
                delta_y: -5,
            },
            ControlPacket::MouseMoveAbsolute {
                x: 3,
                y: 4,
                unused: 0,
                reference_width: 1280,
                reference_height: 720,
            },
            ControlPacket::MouseHorizontalScroll { scroll_amount: 120 },
            ControlPacket::MouseScroll {
                scroll_amount_1: -3,
                scroll_amount_2: 0,
                zero: 0,
            },
        ]
    );
    assert!(!batcher.is_dirty());
    assert_eq!(batcher.remove_batched_inputs(), vec![]);
}

#[test]
fn taking_out_a_batch_keeps_keys_and_controllers() {
    let mut batcher = InputBatcher::default();
    batcher.batch_input(key(KeyAction::Down, 65));
    batcher.batch_input(connect(2));
    batcher.batch_input(ClientInputEvent::MouseScrollVertical { scroll_y: 1 });
    assert_eq!(batcher.remove_batched_inputs().len(), 1);
    assert_eq!(batcher.batch_input(key(KeyAction::Down, 65)), None);
    assert_eq!(batcher.batch_input(connect(2)), None);
}

#[test]
fn any_number_of_movements_add_up() {
    let mut batcher = InputBatcher::default();
    for (delta_x, delta_y) in [(30_000, -4), (-29_000, 5), (12, 32_000), (0, -31_999), (-5, 7)] {
        batcher.batch_input(ClientInputEvent::MouseMoveRelative { delta_x, delta_y });
    }
    assert_eq!(
        batcher.remove_batched_inputs(),
        vec![ControlPacket::MouseMoveRelative {
            delta_x: 1_007,
            delta_y: 9,
        }]
    );
}

#[test]
fn converting_reports_an_event_by_itself() {
    let mut batcher = InputBatcher::default();
    assert_eq!(
        batcher.convert_input(ClientInputEvent::MouseMoveRelative {
            delta_x: 5,
            delta_y: -6,
        }),
        Some(ControlPacket::MouseMoveRelative {
            delta_x: 5,
            delta_y: -6,
        })
    );
    assert!(!batcher.is_dirty());
    assert!(batcher.convert_input(key(KeyAction::Down, 65)).is_some());
    assert_eq!(batcher.convert_input(key(KeyAction::Down, 65)), None);
    assert!(batcher.convert_input(key(KeyAction::Up, 65)).is_some());
    assert_eq!(batcher.convert_input(state(3)), None);
}

#[test]
fn collected_movements_stay_in_range() {
    let mut batcher = InputBatcher::default();
    for _ in 0..3 {
        batcher.batch_input(ClientInputEvent::MouseMoveRelative {
            delta_x: 30_000,
            delta_y: -30_000,
        });
    }
    assert_eq!(
        batcher.remove_batched_inputs(),
        vec![ControlPacket::MouseMoveRelative {
            delta_x: i16::MAX,
            delta_y: i16::MIN,
        }]
    );
}

#[test]
fn movements_that_cancel_out_are_not_sent() {
    let mut batcher = InputBatcher::default();
    batcher.batch_input(ClientInputEvent::MouseScrollVertical { scroll_y: 4 });
    assert!(batcher.is_dirty());
    batcher.batch_input(ClientInputEvent::MouseScrollVertical { scroll_y: -4 });
    assert!(!batcher.is_dirty());
}

#[test]
fn buttons_are_sent_at_once() {
    let mut batcher = InputBatcher::default();
    assert_eq!(
        batcher.batch_input(ClientInputEvent::MouseButton {
            action: MouseButtonAction::Press,
            button: MouseButton::Right,
        }),
        Some(ControlPacket::MouseButton {
            action: MouseButtonAction::Press,
            button: MouseButton::Right,
        })
    );
}

#[test]
fn controllers_connect_once_and_only_within_the_limit() {
    let mut batcher = InputBatcher::default();
    assert!(batcher.batch_input(connect(3)).is_some());
    assert_eq!(batcher.batch_input(connect(3)), None);
    assert!(batcher.batch_input(connect(15)).is_some());
    assert_eq!(batcher.batch_input(connect(16)), None);
    assert_eq!(
        batcher.batch_input(ClientInputEvent::ControllerDisconnect {
            controller_number: 16,
        }),
        None
    );
    assert_eq!(
        batcher.batch_input(ClientInputEvent::ControllerDisconnect {
            controller_number: 4,
        }),
        None
    );
}

#[test]
fn the_state_of_a_controller_needs_a_connection() {
    let mut batcher = InputBatcher::default();
    assert_eq!(batcher.batch_input(state(1)), None);
    batcher.batch_input(connect(1));
    batcher.batch_input(connect(4));
    assert_eq!(
        batcher.batch_input(state(1)),
        Some(ControlPacket::ControllerState {
            active_gamepad_mask: ActiveGamepads(0b1_0010),
            controller_number: 1,
            buttons: ControllerButtons(0x1000),
            left_trigger: FloatBits(0.25f32.to_bits()),
            right_trigger: FloatBits(0.5f32.to_bits()),
            left_stick_x: FloatBits(1.0f32.to_bits()),
            left_stick_y: FloatBits((-1.0f32).to_bits()),
            right_stick_x: FloatBits(0.0f32.to_bits()),
            right_stick_y: FloatBits(0.75f32.to_bits()),
        })
    );
    assert_eq!(
        batcher.batch_input(ClientInputEvent::ControllerDisconnect {
            controller_number: 1,
        }),
        Some(ControlPacket::ControllerState {
            active_gamepad_mask: ActiveGamepads(0b1_0000),
            controller_number: 1,
            buttons: ControllerButtons(0),
            left_trigger: FloatBits(0.0f32.to_bits()),
            right_trigger: FloatBits(0.0f32.to_bits()),
            left_stick_x: FloatBits(0.0f32.to_bits()),
            left_stick_y: FloatBits(0.0f32.to_bits()),
            right_stick_x: FloatBits(0.0f32.to_bits()),
            right_stick_y: FloatBits(0.0f32.to_bits()),
        })
    );
    assert_eq!(batcher.batch_input(state(1)), None);
}

#[test]
fn unknown_rotation_and_tilt_have_their_own_values() {
    let mut batcher = InputBatcher::default();
    let one = FloatBits(1.0f32.to_bits());
    let Some(ControlPacket::Touch {
        rotation, reserved, ..
    }) = batcher.batch_input(ClientInputEvent::Touch {
        event_type: TouchEventType::Down,
        rotation: None,
        pointer_id: 7,
        x: one,
        y: one,
        pressure_or_distance: one,
        contact_area_minor: one,
        contact_area_major: one,
    })
    else {
        panic!("a touch is sent at once")
    };
    assert_eq!((rotation, reserved), (0xFFFF, 0));
    let pen = |rotation, tilt| ClientInputEvent::Pen {
        event_type: TouchEventType::Move,
        tool_type: ToolType::Pen,
        buttons: PenButtons(1),
        x: one,
        y: one,
        pressure_or_distance: one,
        rotation,
        tilt,
        contact_area_minor: one,
        contact_area_major: one,
    };
    let Some(ControlPacket::Pen { rotation, tilt, .. }) = batcher.batch_input(pen(None, None))
    else {
        panic!("a pen is sent at once")
    };
    assert_eq!((rotation, tilt), (0xFFFF, 0xFF));
    let Some(ControlPacket::Pen { rotation, tilt, .. }) =
        batcher.batch_input(pen(Some(90), Some(45)))
    else {
        panic!("a pen is sent at once")
    };
    assert_eq!((rotation, tilt), (90, 45));
}

#[test]
fn masks_of_controllers() {
    let none = ActiveGamepads::empty();
    assert!(none.is_empty());
    let two = none.with(0).with(15);
    assert_eq!(two, ActiveGamepads(0x8001));
    assert!(two.contains(15) && !two.contains(14));
    assert_eq!(two.without(0), ActiveGamepads(0x8000));
    assert!(two.without(0).without(15).is_empty());
}
