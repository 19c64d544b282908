//! What an Apollo host lets a client do.

use vstd::prelude::*;

use crate::control::input_batcher::ClientInputEvent;

verus! {

/// A set of permissions, one bit for each.
#[derive(Debug, Clone, Copy, PartialEq, Eq, Structural)]
pub struct ApolloPermissions(pub u32);

pub const INPUT_CONTROLLER: u32 = 0x100;

pub const INPUT_TOUCH: u32 = 0x200;

pub const INPUT_PEN: u32 = 0x400;

pub const INPUT_MOUSE: u32 = 0x800;

pub const INPUT_KEYBOARD: u32 = 0x1000;

/// The permission that an input needs.
pub open spec fn needed_permission(input: ClientInputEvent) -> u32 {
    match input {
        ClientInputEvent::ControllerConnect { .. } => INPUT_CONTROLLER,
        ClientInputEvent::ControllerDisconnect { .. } => INPUT_CONTROLLER,
        ClientInputEvent::ControllerState { .. } => INPUT_CONTROLLER,
        ClientInputEvent::Keyboard { .. } => INPUT_KEYBOARD,
        ClientInputEvent::MouseButton { .. } => INPUT_MOUSE,
        ClientInputEvent::MouseMoveAbsolute { .. } => INPUT_MOUSE,
        ClientInputEvent::MouseMoveRelative { .. } => INPUT_MOUSE,
        ClientInputEvent::MouseScrollHorizontal { .. } => INPUT_MOUSE,
        ClientInputEvent::MouseScrollVertical { .. } => INPUT_MOUSE,
        ClientInputEvent::Touch { .. } => INPUT_TOUCH,
        ClientInputEvent::Pen { .. } => INPUT_PEN,
    }
}

impl ApolloPermissions {
    /// Whether all bits of `permission` are set.
    pub open spec fn has(self, permission: u32) -> bool {
        self.0 & permission == permission
    }

    /// Whether all bits of `permission` are set.
    pub fn contains(&self, permission: u32) -> (contained: bool)
        ensures
            contained == self.has(permission),
    {
        self.0 & permission == permission
    }
}

/// The permission that an input needs.
pub fn permission_for(input: &ClientInputEvent) -> (permission: u32)
    ensures
        permission == needed_permission(*input),
{
    match input {
        ClientInputEvent::ControllerConnect { .. } => INPUT_CONTROLLER,
        ClientInputEvent::ControllerDisconnect { .. } => INPUT_CONTROLLER,
        ClientInputEvent::ControllerState { .. } => INPUT_CONTROLLER,
        ClientInputEvent::Keyboard { .. } => INPUT_KEYBOARD,
        ClientInputEvent::MouseButton { .. } => INPUT_MOUSE,
        ClientInputEvent::MouseMoveAbsolute { .. } => INPUT_MOUSE,
        ClientInputEvent::MouseMoveRelative { .. } => INPUT_MOUSE,
        ClientInputEvent::MouseScrollHorizontal { .. } => INPUT_MOUSE,
        ClientInputEvent::MouseScrollVertical { .. } => INPUT_MOUSE,
        ClientInputEvent::Touch { .. } => INPUT_TOUCH,
        ClientInputEvent::Pen { .. } => INPUT_PEN,
    }
}

} // verus!
