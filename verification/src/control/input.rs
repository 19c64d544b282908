//! What the input devices of a client can report.

use vstd::prelude::*;

verus! {

/// A single-precision number, as its bits. The library only passes such numbers
/// on; it never computes with them.
#[derive(Debug, Clone, Copy, PartialEq, Eq, Structural)]
pub struct FloatBits(pub u32);

impl FloatBits {
    /// The number zero.
    pub fn zero() -> (zero: FloatBits)
        ensures
            zero == FloatBits(0),
    {
        FloatBits(0)
    }
}

#[derive(Debug, Clone, Copy, PartialEq, Eq, Structural)]
pub enum KeyAction {
    Up,
    Down,
}

#[derive(Debug, Clone, Copy, PartialEq, Eq, Structural)]
pub struct KeyFlags(pub u8);

/// A Windows virtual key code.
#[derive(Debug, Clone, Copy, PartialEq, Eq, Structural)]
pub struct KeyCode(pub u16);

#[derive(Debug, Clone, Copy, PartialEq, Eq, Structural)]
pub struct KeyModifiers(pub u8);

#[derive(Debug, Clone, Copy, PartialEq, Eq, Structural)]
pub enum MouseButtonAction {
    Press,
    Release,
}

#[derive(Debug, Clone, Copy, PartialEq, Eq, Structural)]
pub enum MouseButton {
    Left,
    Middle,
    Right,
    X1,
    X2,
}

#[derive(Debug, Clone, Copy, PartialEq, Eq, Structural)]
pub enum ControllerType {
    Unknown,
    Xbox,
    PlayStation,
    Nintendo,
}

#[derive(Debug, Clone, Copy, PartialEq, Eq, Structural)]
pub struct ControllerCapabilities(pub u16);

impl ControllerCapabilities {
    pub fn empty() -> (none: ControllerCapabilities)
        ensures
            none == ControllerCapabilities(0),
    {
        ControllerCapabilities(0)
    }
}

#[derive(Debug, Clone, Copy, PartialEq, Eq, Structural)]
pub struct ControllerButtons(pub u32);

impl ControllerButtons {
    pub fn empty() -> (none: ControllerButtons)
        ensures
            none == ControllerButtons(0),
    {
        ControllerButtons(0)
    }
}

#[derive(Debug, Clone, Copy, PartialEq, Eq, Structural)]
pub enum TouchEventType {
    Hover,
    Down,
    Up,
    Move,
    Cancel,
    ButtonOnly,
    HoverLeave,
    CancelAll,
}

#[derive(Debug, Clone, Copy, PartialEq, Eq, Structural)]
pub enum ToolType {
    Unknown,
    Pen,
    Eraser,
}

#[derive(Debug, Clone, Copy, PartialEq, Eq, Structural)]
pub struct PenButtons(pub u8);

/// The number of controllers that a client can have at once.
pub const MAX_GAMEPADS: u8 = 16;

/// The set of connected controllers, one bit for each.
#[derive(Debug, Clone, Copy, PartialEq, Eq, Structural)]
pub struct ActiveGamepads(pub u16);

/// The mask of a single controller.
pub open spec fn gamepad_bit(id: u8) -> u16 {
    1u16 << id
}

impl View for ActiveGamepads {
    type V = Set<u8>;

    /// The numbers of the connected controllers.
    open spec fn view(&self) -> Set<u8> {
        Set::new(|id: u8| id < MAX_GAMEPADS && self.0 & gamepad_bit(id) != 0)
    }
}

/// How the bits of two masks are combined bit by bit.
proof fn lemma_bits(mask: u16, a: u8, b: u8)
    requires
        a < MAX_GAMEPADS,
        b < MAX_GAMEPADS,
    ensures
        gamepad_bit(a) != 0,
        (mask & gamepad_bit(a) == gamepad_bit(a)) == (mask & gamepad_bit(a) != 0),
        ((mask | gamepad_bit(a)) & gamepad_bit(b) != 0) == (a == b || mask & gamepad_bit(b) != 0),
        ((mask & !gamepad_bit(a)) & gamepad_bit(b) != 0) == (a != b && mask & gamepad_bit(b) != 0),
        0u16 & gamepad_bit(a) == 0,
{
    assert(a < 16 && b < 16 ==> {
        &&& 1u16 << a != 0
        &&& (mask & (1u16 << a) == (1u16 << a)) == (mask & (1u16 << a) != 0)
        &&& ((mask | (1u16 << a)) & (1u16 << b) != 0) == (a == b || mask & (1u16 << b) != 0)
        &&& ((mask & !(1u16 << a)) & (1u16 << b) != 0) == (a != b && mask & (1u16 << b) != 0)
        &&& 0u16 & (1u16 << a) == 0
    }) by (bit_vector);
}

/// A mask that is not zero has a bit.
proof fn lemma_some_bit(mask: u16) -> (id: u8)
    requires
        mask != 0,
    ensures
        id < MAX_GAMEPADS,
        mask & gamepad_bit(id) != 0,
{
    assert(mask != 0 ==> {
        ||| mask & (1u16 << 0u8) != 0
        ||| mask & (1u16 << 1u8) != 0
        ||| mask & (1u16 << 2u8) != 0
        ||| mask & (1u16 << 3u8) != 0
        ||| mask & (1u16 << 4u8) != 0
        ||| mask & (1u16 << 5u8) != 0
        ||| mask & (1u16 << 6u8) != 0
        ||| mask & (1u16 << 7u8) != 0
        ||| mask & (1u16 << 8u8) != 0
        ||| mask & (1u16 << 9u8) != 0
        ||| mask & (1u16 << 10u8) != 0
        ||| mask & (1u16 << 11u8) != 0
        ||| mask & (1u16 << 12u8) != 0
        ||| mask & (1u16 << 13u8) != 0
        ||| mask & (1u16 << 14u8) != 0
        ||| mask & (1u16 << 15u8) != 0
    }) by (bit_vector);
    assert(exists|id: u8| id < MAX_GAMEPADS && mask & #[trigger] gamepad_bit(id) != 0) by {
        assert(gamepad_bit(0) == 1u16 << 0u8);
        assert(gamepad_bit(1) == 1u16 << 1u8);
        assert(gamepad_bit(2) == 1u16 << 2u8);
        assert(gamepad_bit(3) == 1u16 << 3u8);
        assert(gamepad_bit(4) == 1u16 << 4u8);
        assert(gamepad_bit(5) == 1u16 << 5u8);
        assert(gamepad_bit(6) == 1u16 << 6u8);
        assert(gamepad_bit(7) == 1u16 << 7u8);
        assert(gamepad_bit(8) == 1u16 << 8u8);
        assert(gamepad_bit(9) == 1u16 << 9u8);
        assert(gamepad_bit(10) == 1u16 << 10u8);
        assert(gamepad_bit(11) == 1u16 << 11u8);
        assert(gamepad_bit(12) == 1u16 << 12u8);
        assert(gamepad_bit(13) == 1u16 << 13u8);
        assert(gamepad_bit(14) == 1u16 << 14u8);
        assert(gamepad_bit(15) == 1u16 << 15u8);
    }
    choose|id: u8| id < MAX_GAMEPADS && mask & #[trigger] gamepad_bit(id) != 0
}

/// Setting a bit connects one controller and keeps the others.
pub proof fn lemma_plus(gamepads: ActiveGamepads, id: u8)
    requires
        id < MAX_GAMEPADS,
    ensures
        gamepads.plus(id)@ == gamepads@.insert(id),
{
    assert forall|other: u8| #[trigger]
        gamepads.plus(id)@.contains(other) == gamepads@.insert(id).contains(other) by {
        if other < MAX_GAMEPADS {
            lemma_bits(gamepads.0, id, other);
        }
    }
    assert(gamepads.plus(id)@ =~= gamepads@.insert(id));
}

/// Clearing a bit disconnects one controller and keeps the others.
pub proof fn lemma_minus(gamepads: ActiveGamepads, id: u8)
    requires
        id < MAX_GAMEPADS,
    ensures
        gamepads.minus(id)@ == gamepads@.remove(id),
{
    assert forall|other: u8| #[trigger]
        gamepads.minus(id)@.contains(other) == gamepads@.remove(id).contains(other) by {
        if other < MAX_GAMEPADS {
            lemma_bits(gamepads.0, id, other);
        }
    }
    assert(gamepads.minus(id)@ =~= gamepads@.remove(id));
}

/// Clearing a bit that was just set leads back to the same mask.
pub proof fn lemma_plus_minus(gamepads: ActiveGamepads, id: u8)
    requires
        id < MAX_GAMEPADS,
        !gamepads@.contains(id),
    ensures
        gamepads.plus(id).minus(id) == gamepads,
{
    let mask = gamepads.0;
    assert(mask & gamepad_bit(id) == 0);
    assert(mask & (1u16 << id) == 0 ==> (mask | (1u16 << id)) & !(1u16 << id) == mask)
        by (bit_vector);
}

impl ActiveGamepads {
    /// The same controllers and one more.
    pub open spec fn plus(self, id: u8) -> ActiveGamepads {
        ActiveGamepads(self.0 | gamepad_bit(id))
    }

    /// The same controllers but one.
    pub open spec fn minus(self, id: u8) -> ActiveGamepads {
        ActiveGamepads(self.0 & !gamepad_bit(id))
    }

    /// No controller at all.
    pub fn empty() -> (none: ActiveGamepads)
        ensures
            none == ActiveGamepads(0),
            none@ == Set::<u8>::empty(),
    {
        let none = ActiveGamepads(0);
        assert forall|id: u8| !#[trigger] none@.contains(id) by {
            if id < MAX_GAMEPADS {
                lemma_bits(0, id, id);
            }
        }
        assert(none@ =~= Set::<u8>::empty());
        none
    }

    /// Whether no controller is connected.
    pub fn is_empty(&self) -> (empty: bool)
        ensures
            empty == (self@ == Set::<u8>::empty()),
    {
        proof {
            let mask = self.0;
            if mask == 0 {
                assert forall|id: u8| !#[trigger] self@.contains(id) by {
                    if id < MAX_GAMEPADS {
                        lemma_bits(0, id, id);
                    }
                }
                assert(self@ =~= Set::<u8>::empty());
            } else {
                let id = lemma_some_bit(mask);
                assert(self@.contains(id));
            }
        }
        self.0 == 0
    }

    /// Whether a controller is connected.
    pub fn contains(&self, id: u8) -> (connected: bool)
        requires
            id < MAX_GAMEPADS,
        ensures
            connected == self@.contains(id),
    {
        proof {
            lemma_bits(self.0, id, id);
        }
        self.0 & (1u16 << id) != 0
    }

    /// The same controllers and one more.
    pub fn with(&self, id: u8) -> (more: ActiveGamepads)
        requires
            id < MAX_GAMEPADS,
        ensures
            more == self.plus(id),
            more@ == self@.insert(id),
    {
        proof {
            lemma_plus(*self, id);
        }
        ActiveGamepads(self.0 | (1u16 << id))
    }

    /// The same controllers but one.
    pub fn without(&self, id: u8) -> (fewer: ActiveGamepads)
        requires
            id < MAX_GAMEPADS,
        ensures
            fewer == self.minus(id),
            fewer@ == self@.remove(id),
    {
        proof {
            lemma_minus(*self, id);
        }
        ActiveGamepads(self.0 & !(1u16 << id))
    }
}

} // verus!
