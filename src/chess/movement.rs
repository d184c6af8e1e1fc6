use vstd::prelude::*;

verus! {

/// One movement rule of a piece: a displacement, applied once or repeatedly,
/// that permits plain moves, captures, or both.
#[derive(Debug, Clone, Copy, PartialEq, Eq)]
pub struct MovementVector {
    pub delta_horizontal: i32,
    pub delta_vertical: i32,
    pub sliding: bool,
    pub can_move: bool,
    pub can_capture: bool,
}

/// The rule that the integer triple `(dh, dv, mode)` of a resource stands for.
///
/// A mode lies in `0..6`: an odd mode slides, an even one is a single step;
/// `mode / 2` is 0 for moves and captures, 1 for moves only, 2 for captures only.
/// Any other mode stands for no rule.
pub open spec fn rule_of(dh: int, dv: int, mode: int) -> Option<MovementVector> {
    if 0 <= mode < 6 && i32::MIN <= dh <= i32::MAX && i32::MIN <= dv <= i32::MAX {
        Some(
            MovementVector {
                delta_horizontal: dh as i32,
                delta_vertical: dv as i32,
                sliding: mode % 2 == 1,
                can_move: mode / 2 != 2,
                can_capture: mode / 2 != 1,
            },
        )
    } else {
        None
    }
}

impl MovementVector {
    /// Builds the rule of the triple `(dh, dv, mode)`, or `None` for a mode outside `0..6`.
    pub fn from_parts(dh: i32, dv: i32, mode: i32) -> (r: Option<MovementVector>)
        ensures
            r == rule_of(dh as int, dv as int, mode as int),
    {
        if mode < 0 || mode >= 6 {
            return None;
        }
        Some(
            MovementVector {
                delta_horizontal: dh,
                delta_vertical: dv,
                sliding: mode % 2 == 1,
                can_move: mode / 2 != 2,
                can_capture: mode / 2 != 1,
            },
        )
    }
}

} // verus!
