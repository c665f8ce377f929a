//! Input-action state tracking: the four-phase press lifecycle that
//! device mappings drive and game code queries.

use vstd::prelude::*;

verus! {

/// How a mapping layer treats events it has handled: passed through
/// untouched, consumed when they hit one of its bindings, or consumed
/// wholesale.
#[derive(Debug, Default, Clone, Copy, PartialEq, Eq, Structural)]
pub enum InputConsume {
    #[default]
    Pass,
    Hit,
    All,
}

/// The lifecycle of a button-like input: `Idle` and `Hold` are the
/// resting phases, `Pressed` and `Released` the one-frame transitions
/// between them.
#[derive(Debug, Default, Clone, Copy, PartialEq, Eq, Structural)]
pub enum InputAction {
    #[default]
    Idle,
    Pressed,
    Hold,
    Released,
}

/// The state that `action` moves to when the device reports the button
/// held (`hold`) or not.
pub open spec fn spec_change(action: InputAction, hold: bool) -> InputAction {
    match (action, hold) {
        (InputAction::Idle, true) => InputAction::Pressed,
        (InputAction::Released, true) => InputAction::Pressed,
        (InputAction::Pressed, true) => InputAction::Hold,
        (InputAction::Pressed, false) => InputAction::Released,
        (InputAction::Hold, false) => InputAction::Released,
        (InputAction::Released, false) => InputAction::Idle,
        _ => action,
    }
}

/// The state that `action` settles into when a frame passes with no
/// device report: the transient phases decay into the resting ones.
pub open spec fn spec_update(action: InputAction) -> InputAction {
    match action {
        InputAction::Pressed => InputAction::Hold,
        InputAction::Released => InputAction::Idle,
        _ => action,
    }
}

impl InputAction {
    /// Feeds one device report into the lifecycle.
    pub fn change(self, hold: bool) -> (r: Self)
        ensures
            r == spec_change(self, hold),
    {
        match (self, hold) {
            (Self::Idle, true) | (Self::Released, true) => Self::Pressed,
            (Self::Pressed, true) => Self::Hold,
            (Self::Pressed, false) | (Self::Hold, false) => Self::Released,
            (Self::Released, false) => Self::Idle,
            _ => self,
        }
    }

    /// Advances the lifecycle by one frame without a device report.
    pub fn update(self) -> (r: Self)
        ensures
            r == spec_update(self),
    {
        match self {
            Self::Pressed => Self::Hold,
            Self::Released => Self::Idle,
            _ => self,
        }
    }

    /// The button rests untouched.
    pub fn is_idle(self) -> (r: bool)
        ensures
            r == (self == InputAction::Idle),
    {
        matches!(self, Self::Idle)
    }

    /// The button went down this frame.
    pub fn is_pressed(self) -> (r: bool)
        ensures
            r == (self == InputAction::Pressed),
    {
        matches!(self, Self::Pressed)
    }

    /// The button stays down.
    pub fn is_hold(self) -> (r: bool)
        ensures
            r == (self == InputAction::Hold),
    {
        matches!(self, Self::Hold)
    }

    /// The button came up this frame.
    pub fn is_released(self) -> (r: bool)
        ensures
            r == (self == InputAction::Released),
    {
        matches!(self, Self::Released)
    }

    /// The button is up, whether resting or just released.
    pub fn is_up(self) -> (r: bool)
        ensures
            r == (self == InputAction::Idle || self == InputAction::Released),
    {
        matches!(self, Self::Idle | Self::Released)
    }

    /// The button is down, whether just pressed or held.
    pub fn is_down(self) -> (r: bool)
        ensures
            r == (self == InputAction::Pressed || self == InputAction::Hold),
    {
        matches!(self, Self::Pressed | Self::Hold)
    }

    /// The state is one of the one-frame transitions.
    pub fn is_changing(self) -> (r: bool)
        ensures
            r == (self == InputAction::Pressed || self == InputAction::Released),
    {
        matches!(self, Self::Pressed | Self::Released)
    }

    /// The state is one of the resting phases.
    pub fn is_continuing(self) -> (r: bool)
        ensures
            r == (self == InputAction::Idle || self == InputAction::Hold),
    {
        matches!(self, Self::Idle | Self::Hold)
    }
}

/// Text typed since the last take, accumulated by the event loop and
/// consumed by whoever owns the text field.
#[derive(Debug, Default, Clone)]
pub struct InputCharacters {
    characters: String,
}

impl InputCharacters {
    /// The accumulated characters.
    pub closed spec fn spec_characters(&self) -> Seq<char> {
        self.characters@
    }

    /// Reads the accumulated text without consuming it.
    pub fn read(&self) -> (r: &str)
        ensures
            r@ == self.spec_characters(),
    {
        self.characters.as_str()
    }

    /// Grants mutable access to the accumulated text.
    pub fn write(&mut self) -> (r: &mut String)
        ensures
            r@ == old(self).spec_characters(),
            final(self).spec_characters() == final(r)@,
    {
        &mut self.characters
    }

    /// Takes the accumulated text, leaving the buffer empty.
    pub fn take(&mut self) -> (r: String)
        ensures
            r@ == old(self).spec_characters(),
            final(self).spec_characters() == Seq::<char>::empty(),
    {
        let mut taken = String::new();
        core::mem::swap(&mut taken, &mut self.characters);
        taken
    }
}

} // verus!
