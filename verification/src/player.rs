use crate::geom::{DIM_LIMIT, Rect, RectV, rect_ok};
use crate::spec_move_dir;
use vstd::prelude::*;

verus! {

/// Width of the paddle, in thousandths of a pixel.
pub const PLAYER_W: i64 = 150_000;

/// Height of the paddle, in thousandths of a pixel.
pub const PLAYER_H: i64 = 40_000;

/// Width of the paddle while the size powerup is active.
pub const PLAYER_WIDE_W: i64 = 200_000;

/// Base paddle speed, in pixels per second.
pub const PLAYER_BASE_SPEED: i64 = 700;

/// Paddle speed while the speed powerup is active, in pixels per second.
pub const PLAYER_BOOST_SPEED: i64 = 1000;

/// Bound on any paddle speed, in pixels per second.
pub const SPEED_LIMIT: i64 = 100_000;

/// Largest frame delta accepted, in milliseconds.
pub const DT_LIMIT: i64 = 100_000;

/// The paddle: a rectangle and a horizontal speed.  Width and speed can be
/// temporarily raised by powerups.
#[derive(Clone, Copy, PartialEq, Eq, Structural, Debug)]
pub struct Player {
    pub rect: Rect,
    pub speed: i64,
}

/// Mathematical image of the paddle.
pub struct PlayerV {
    pub rect: RectV,
    pub speed: int,
}

impl View for Player {
    type V = PlayerV;

    open spec fn view(&self) -> PlayerV {
        PlayerV { rect: self.rect@, speed: self.speed as int }
    }
}

pub open spec fn player_ok(p: PlayerV) -> bool {
    &&& rect_ok(p.rect)
    &&& 0 <= p.speed <= SPEED_LIMIT
}

/// One frame of paddle movement: displace by the chosen direction times
/// `speed * dt`, then clamp to the screen, left edge first.
pub open spec fn spec_player_update(
    p: PlayerV,
    left_down: bool,
    right_down: bool,
    dt: int,
    sw: int,
) -> PlayerV {
    let dir = spec_move_dir(left_down, right_down);
    let step = p.speed * dt;
    let x1 = if dir == -1 {
        p.rect.x - step
    } else if dir == 1 {
        p.rect.x + step
    } else {
        p.rect.x
    };
    let x2 = if x1 < 0 {
        0
    } else {
        x1
    };
    let x3 = if x2 > sw - p.rect.w {
        sw - p.rect.w
    } else {
        x2
    };
    PlayerV { rect: RectV { x: x3, y: p.rect.y, w: p.rect.w, h: p.rect.h }, speed: p.speed }
}

/// The paddle a round starts with: centered horizontally, a fixed offset
/// above the bottom of the screen, at base size and speed.
pub open spec fn spec_player_new(sw: int, sh: int) -> PlayerV {
    PlayerV {
        rect: RectV {
            x: sw / 2 - PLAYER_W as int / 2,
            y: sh - 100_000,
            w: PLAYER_W as int,
            h: PLAYER_H as int,
        },
        speed: PLAYER_BASE_SPEED as int,
    }
}

impl Player {
    /// A fresh paddle, centered horizontally, a fixed offset above the bottom
    /// of the screen, at base size and speed.
    pub fn new(sw: i64, sh: i64) -> (p: Player)
        requires
            0 <= sw <= DIM_LIMIT,
            0 <= sh <= DIM_LIMIT,
        ensures
            p@ == spec_player_new(sw as int, sh as int),
            player_ok(p@),
    {
        Player {
            rect: Rect { x: sw / 2 - PLAYER_W / 2, y: sh - 100_000, w: PLAYER_W, h: PLAYER_H },
            speed: PLAYER_BASE_SPEED,
        }
    }

    /// One frame of movement from the two key states: displace horizontally,
    /// then clamp to the screen's horizontal bounds.
    pub fn update(&mut self, left_down: bool, right_down: bool, dt: i64, sw: i64)
        requires
            player_ok(old(self)@),
            0 <= dt <= DT_LIMIT,
            0 <= sw <= DIM_LIMIT,
        ensures
            final(self)@ == spec_player_update(old(self)@, left_down, right_down, dt as int, sw as int),
            player_ok(final(self)@),
            sw >= old(self).rect.w ==> 0 <= final(self).rect.x <= sw - old(self).rect.w,
    {
        let dir = crate::move_dir(left_down, right_down);
        proof {
            let sp = self@.speed;
            assert(0 <= sp * (dt as int) <= SPEED_LIMIT * DT_LIMIT) by (nonlinear_arith)
                requires
                    0 <= sp <= SPEED_LIMIT,
                    0 <= dt as int <= DT_LIMIT,
            ;
        }
        let step = self.speed * dt;
        if dir == -1 {
            self.rect.x = self.rect.x - step;
        } else if dir == 1 {
            self.rect.x = self.rect.x + step;
        }
        if self.rect.x < 0 {
            self.rect.x = 0;
        }
        if self.rect.x > sw - self.rect.w {
            self.rect.x = sw - self.rect.w;
        }
    }
}

/// The paddle never leaves the screen: after a frame of movement its x
/// position lies within [0, screen width - paddle width], whenever the
/// paddle fits on the screen at all.
pub proof fn lemma_paddle_stays_on_screen(
    p: PlayerV,
    left_down: bool,
    right_down: bool,
    dt: int,
    sw: int,
)
    requires
        sw >= p.rect.w,
    ensures
        0 <= spec_player_update(p, left_down, right_down, dt, sw).rect.x <= sw - p.rect.w,
{
}

} // verus!
