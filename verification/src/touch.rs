//! Touch: what one motion event means for the key under the finger.

use vstd::prelude::*;

verus! {

/// One touch action, as Android's `MotionEvent.getActionMasked()` reports it.
#[derive(Debug, Clone, Copy, PartialEq, Eq, Structural)]
pub enum MotionAction {
    /// The first finger went down.
    Down,
    Move,
    /// The last finger went up.
    Up,
    /// The system took the touch away.
    Cancel,
    /// Another finger went down while one is already down.
    PointerDown,
    /// A finger went up while another stays down.
    PointerUp,
}

impl MotionAction {
    /// The action a masked Android action number stands for: `ACTION_DOWN` 0, `ACTION_UP` 1,
    /// `ACTION_MOVE` 2, `ACTION_CANCEL` 3, `ACTION_POINTER_DOWN` 5, `ACTION_POINTER_UP` 6;
    /// any other number is handled as a lift.
    pub open spec fn spec_from_motion(action: i32) -> MotionAction {
        if action == 0 {
            MotionAction::Down
        } else if action == 2 {
            MotionAction::Move
        } else if action == 1 {
            MotionAction::Up
        } else if action == 3 {
            MotionAction::Cancel
        } else if action == 5 {
            MotionAction::PointerDown
        } else if action == 6 {
            MotionAction::PointerUp
        } else {
            MotionAction::Up
        }
    }

    /// Translates Android's `actionMasked`. A number it does not know is handled as a lift
    /// (the safest choice: it can only do less).
    pub fn from_motion(action: i32) -> (motion: MotionAction)
        ensures
            motion == Self::spec_from_motion(action),
    {
        match action {
            0 => MotionAction::Down,
            2 => MotionAction::Move,
            1 => MotionAction::Up,
            3 => MotionAction::Cancel,
            5 => MotionAction::PointerDown,
            6 => MotionAction::PointerUp,
            _ => MotionAction::Up,
        }
    }
}

/// Android's action numbers are read as the actions they name (`ACTION_DOWN` 0, `ACTION_UP`
/// 1, `ACTION_MOVE` 2, `ACTION_CANCEL` 3, `ACTION_POINTER_DOWN` 5, `ACTION_POINTER_UP` 6),
/// and any other number as a lift.
pub proof fn lemma_motion_numbers(action: i32)
    ensures
        MotionAction::spec_from_motion(0) == MotionAction::Down,
        MotionAction::spec_from_motion(1) == MotionAction::Up,
        MotionAction::spec_from_motion(2) == MotionAction::Move,
        MotionAction::spec_from_motion(3) == MotionAction::Cancel,
        MotionAction::spec_from_motion(5) == MotionAction::PointerDown,
        MotionAction::spec_from_motion(6) == MotionAction::PointerUp,
        !(0 <= action <= 3 || action == 5 || action == 6) ==> MotionAction::spec_from_motion(action)
            == MotionAction::Up,
{
}

} // verus!
