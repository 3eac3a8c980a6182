//! The policy of a display session: when it ends and when the grid moves
//! on to the next generation. The driver observes, asks here, and acts.

use vstd::prelude::*;

verus! {

/// What the driver observed at the start of a frame.
#[derive(Clone, Copy, Debug, PartialEq, Eq, Structural)]
pub struct Observation {
    /// The window was asked to close.
    pub close_requested: bool,
    /// The pointer is no longer where it was when the session began.
    pub pointer_moved: bool,
    /// A mouse button was pressed.
    pub button_pressed: bool,
    /// The mouse wheel was turned.
    pub wheel_moved: bool,
    /// At least one tick has passed since the last update of the grid.
    pub tick_elapsed: bool,
}

/// What the driver does in a frame.
#[derive(Clone, Copy, Debug, PartialEq, Eq, Structural)]
pub enum Action {
    /// End the session without drawing.
    Stop,
    /// Update the grid, restart the tick, then draw.
    Advance,
    /// Draw the grid as it is.
    Draw,
}

impl Observation {
    /// Any input from the user, or a request to close, ends the session.
    pub open spec fn ends_session(self) -> bool {
        self.close_requested || self.pointer_moved || self.button_pressed || self.wheel_moved
    }
}

/// The action for a frame. Ending the session takes precedence over
/// everything else; the grid is updated at most once per tick.
pub fn next_action(seen: Observation) -> (action: Action)
    ensures
        action == if seen.ends_session() {
            Action::Stop
        } else if seen.tick_elapsed {
            Action::Advance
        } else {
            Action::Draw
        },
{
    if seen.close_requested {
        return Action::Stop;
    }
    if seen.pointer_moved {
        return Action::Stop;
    }
    if seen.button_pressed || seen.wheel_moved {
        return Action::Stop;
    }
    if seen.tick_elapsed {
        Action::Advance
    } else {
        Action::Draw
    }
}

} // verus!
