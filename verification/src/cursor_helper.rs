//! The switch that shows or hides the cursor's position.
use vstd::prelude::*;

verus! {

/// Whether the cursor's position is shown.
#[derive(Clone, Copy, PartialEq, Eq, Structural, Debug, Hash)]
pub enum CursorHelperState {
    Enabled,
    Disabled,
}

impl Default for CursorHelperState {
    /// The position is hidden until it is asked for.
    fn default() -> (state: CursorHelperState)
        ensures
            state == CursorHelperState::Disabled,
    {
        CursorHelperState::Disabled
    }
}

/// The other state.
pub open spec fn toggled(state: CursorHelperState) -> CursorHelperState {
    match state {
        CursorHelperState::Enabled => CursorHelperState::Disabled,
        CursorHelperState::Disabled => CursorHelperState::Enabled,
    }
}

/// The state after one frame: the other one if the toggle key went down in
/// this frame, the same one if not.
pub fn toggle_cursor_helper(state: CursorHelperState, key_just_pressed: bool) -> (next:
    CursorHelperState)
    ensures
        next == if key_just_pressed {
            toggled(state)
        } else {
            state
        },
{
    if key_just_pressed {
        match state {
            CursorHelperState::Enabled => CursorHelperState::Disabled,
            CursorHelperState::Disabled => CursorHelperState::Enabled,
        }
    } else {
        state
    }
}

/// Two presses of the key bring the former state back.
pub proof fn lemma_toggle_twice(state: CursorHelperState)
    ensures
        toggled(toggled(state)) == state,
{
}

} // verus!
