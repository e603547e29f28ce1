//! The rotary-encoder count accumulator.

use vstd::prelude::*;

verus! {

/// A complete detent transition as the quadrature decoder reports it.
#[derive(Clone, Copy, PartialEq, Eq, Structural, Debug)]
pub enum Direction {
    Clockwise,
    CounterClockwise,
}

/// The contribution of one detent transition to the running count.
pub open spec fn step_delta(dir: Direction) -> int {
    match dir {
        Direction::Clockwise => 1,
        Direction::CounterClockwise => -1,
    }
}

/// `v` brought back into `i32` range by wrapping, for `v` at most one step
/// outside it.
pub open spec fn wrap_i32(v: int) -> int {
    if v > i32::MAX {
        v - 0x1_0000_0000
    } else if v < i32::MIN {
        v + 0x1_0000_0000
    } else {
        v
    }
}

/// Accumulate one decoded detent transition into the running count. The
/// count has no bound of its own; it wraps at the integer width.
pub fn encoder_step(count: i32, dir: Direction) -> (r: i32)
    ensures
        r == wrap_i32(count + step_delta(dir)),
{
    match dir {
        Direction::Clockwise => {
            if count == i32::MAX {
                i32::MIN
            } else {
                count + 1
            }
        },
        Direction::CounterClockwise => {
            if count == i32::MIN {
                i32::MAX
            } else {
                count - 1
            }
        },
    }
}

} // verus!
