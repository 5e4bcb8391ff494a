//! A verified core of a breakout-style arcade game: axis-aligned collision
//! response, paddle, balls, blocks, powerup timers, the per-frame pipeline of
//! a round, and the game-mode state machine.  Positions are in thousandths of
//! a pixel and times in milliseconds, so the whole simulation is exact
//! integer arithmetic; rendering and input stay outside the library.

pub mod ball;
pub mod block;
pub mod game;
pub mod geom;
pub mod round;
pub mod player;
pub mod timer;

use vstd::prelude::*;

verus! {

/// Direction of paddle movement chosen from the two key states: left alone
/// moves left, right alone moves right, both or neither stand still.
pub fn move_dir(left_down: bool, right_down: bool) -> (d: i64)
    ensures
        d == spec_move_dir(left_down, right_down),
{
    if left_down && !right_down {
        -1
    } else if right_down && !left_down {
        1
    } else {
        0
    }
}

pub open spec fn spec_move_dir(left_down: bool, right_down: bool) -> int {
    if left_down && !right_down {
        -1
    } else if right_down && !left_down {
        1
    } else {
        0
    }
}

} // verus!
