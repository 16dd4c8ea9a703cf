//! Per-frame pointer state: button transition flags and an optional pointer
//! position in grid-cell coordinates.

use crate::geometry::GridPoint;
use vstd::prelude::*;

verus! {

/// Transition flags for one pointer button in one frame. The three facts are
/// independent and combinable: a button can be both just-pressed and held in
/// the same frame. All three false means no transition and not held.
#[derive(Clone, Copy, Debug, PartialEq, Eq, Structural)]
pub struct ButtonState {
    /// The button went down this frame.
    pub clicked: bool,
    /// The button is currently down.
    pub held: bool,
    /// The button went up this frame.
    pub released: bool,
}

impl ButtonState {
    /// The flag set with no transition recorded.
    pub open spec fn spec_empty() -> ButtonState {
        ButtonState { clicked: false, held: false, released: false }
    }

    /// The flag set with no transition recorded.
    #[verifier::when_used_as_spec(spec_empty)]
    pub fn empty() -> (r: ButtonState)
        ensures
            r == ButtonState::spec_empty(),
    {
        ButtonState { clicked: false, held: false, released: false }
    }

    /// Derive the frame's flags from the input collaborator's three transition
    /// predicates for one button.
    pub fn from_transitions(just_pressed: bool, pressed: bool, just_released: bool) -> (r: ButtonState)
        ensures
            r.clicked == just_pressed,
            r.held == pressed,
            r.released == just_released,
    {
        let mut state = ButtonState::empty();
        if just_pressed {
            state.clicked = true;
        }
        if pressed {
            state.held = true;
        }
        if just_released {
            state.released = true;
        }
        state
    }
}

/// The pointer snapshot for one frame: the three buttons' transition flags and
/// the pointer position in grid-cell coordinates, absent when no camera,
/// viewport or window cursor was available.
#[derive(Clone, Copy, Debug)]
pub struct MouseState {
    pub lmb: ButtonState,
    pub rmb: ButtonState,
    pub mid: ButtonState,
    pub pos: Option<GridPoint>,
}

impl MouseState {
    /// The snapshot with no buttons down and no pointer position.
    pub open spec fn spec_cleared() -> MouseState {
        MouseState {
            lmb: ButtonState::spec_empty(),
            rmb: ButtonState::spec_empty(),
            mid: ButtonState::spec_empty(),
            pos: None,
        }
    }

    /// The snapshot with no buttons down and no pointer position.
    #[verifier::when_used_as_spec(spec_cleared)]
    pub fn cleared() -> (r: MouseState)
        ensures
            r == MouseState::spec_cleared(),
    {
        MouseState { lmb: ButtonState::empty(), rmb: ButtonState::empty(), mid: ButtonState::empty(), pos: None }
    }

    /// Forget the previous frame's buttons and position.
    pub fn reset(&mut self)
        ensures
            *final(self) == MouseState::spec_cleared(),
    {
        self.lmb = ButtonState::empty();
        self.rmb = ButtonState::empty();
        self.mid = ButtonState::empty();
        self.pos = None;
    }
}

impl Default for MouseState {
    /// A fresh snapshot records nothing.
    fn default() -> (r: MouseState)
        ensures
            r == MouseState::spec_cleared(),
    {
        MouseState::cleared()
    }
}

} // verus!
