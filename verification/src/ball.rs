use crate::geom::{DIM_LIMIT, Pos, Rect, RectV, Vel, VelV, rect_ok, vel_ok};
use crate::player::DT_LIMIT;
use vstd::prelude::*;

verus! {

/// Side of the square ball, in thousandths of a pixel.
pub const BALL_SIZE: i64 = 50_000;

/// Speed of every ball, in pixels per second.
pub const BALL_SPEED: i64 = 400;

/// Unit velocity: direction components are in thousandths of it.
pub const VEL_UNIT: i64 = 1000;

/// A ball: a fixed-size rectangle and a direction vector.  Only the
/// direction carries state; displacement always scales it by the constant
/// ball speed.
#[derive(Clone, Copy, PartialEq, Eq, Structural, Debug)]
pub struct Ball {
    pub rect: Rect,
    pub vel: Vel,
}

/// Mathematical image of a ball.
pub struct BallV {
    pub rect: RectV,
    pub vel: VelV,
}

impl View for Ball {
    type V = BallV;

    open spec fn view(&self) -> BallV {
        BallV { rect: self.rect@, vel: self.vel@ }
    }
}

pub open spec fn ball_ok(b: BallV) -> bool {
    &&& rect_ok(b.rect)
    &&& vel_ok(b.vel)
}

/// Bound on a ball's coordinates right after the movement phase.
pub const MOVED_COORD: i64 = 1_400_000_000_000;

/// A ball whose coordinates stay within `c` and whose size and velocity are
/// in their usual bounds.
pub open spec fn ball_bounded(b: BallV, c: int) -> bool {
    &&& -c <= b.rect.x <= c
    &&& -c <= b.rect.y <= c
    &&& 0 <= b.rect.w <= crate::geom::DIM_LIMIT
    &&& 0 <= b.rect.h <= crate::geom::DIM_LIMIT
    &&& vel_ok(b.vel)
}

/// Displacement along one axis in one frame: the direction component times
/// the ball speed and the elapsed milliseconds, scaled back to thousandths
/// of a pixel (magnitudes round toward zero).
pub open spec fn spec_ball_step(v: int, dt: int) -> int {
    if v >= 0 {
        (v * BALL_SPEED * dt) / 1000
    } else {
        -(((-v) * BALL_SPEED * dt) / 1000)
    }
}

/// One frame of ball movement: advance both axes, then force the direction
/// inward at the left, right and top screen edges.  There is no bottom
/// bounce: falling past the bottom is how a ball is lost.
pub open spec fn spec_ball_move(b: BallV, dt: int, sw: int) -> BallV {
    let x1 = b.rect.x + spec_ball_step(b.vel.x, dt);
    let y1 = b.rect.y + spec_ball_step(b.vel.y, dt);
    let vx = if x1 > sw - b.rect.w {
        -(VEL_UNIT as int)
    } else if x1 < 0 {
        VEL_UNIT as int
    } else {
        b.vel.x
    };
    let vy = if y1 < 0 {
        VEL_UNIT as int
    } else {
        b.vel.y
    };
    BallV {
        rect: RectV { x: x1, y: y1, w: b.rect.w, h: b.rect.h },
        vel: VelV { x: vx, y: vy },
    }
}

/// Whether `v` is the initial direction derived from the raw draw `steer`:
/// the vector (steer, 1000) scaled to (near) unit length, so the ball always
/// starts downward, with a slant set by the draw.
pub open spec fn dir_for(steer: int, v: VelV) -> bool {
    exists|m: int|
        {
            &&& 1000 <= m <= 1414
            &&& #[trigger] (m * m) <= steer * steer + 1_000_000
            &&& steer * steer + 1_000_000 < (m + 1) * (m + 1)
            &&& v.y == 1_000_000int / m
            &&& v.x == if steer >= 0 {
                (steer * 1000) / m
            } else {
                -(((-steer) * 1000) / m)
            }
        }
}

fn ball_step_exec(v: i64, dt: i64) -> (s: i64)
    requires
        -10_000 <= v <= 10_000,
        0 <= dt <= DT_LIMIT,
    ensures
        s == spec_ball_step(v as int, dt as int),
        -400_000_000_000 <= s <= 400_000_000_000,
{
    proof {
        assert((if v >= 0 { v as int } else { -(v as int) }) * (BALL_SPEED as int) * (dt as int)
            <= 400_000_000_000_000 && (if v >= 0 { v as int } else { -(v as int) }) * (
        BALL_SPEED as int) * (dt as int) >= 0) by (nonlinear_arith)
            requires
                -10_000 <= v as int <= 10_000,
                0 <= dt as int <= DT_LIMIT,
                BALL_SPEED == 400,
        ;
    }
    if v >= 0 {
        (v * BALL_SPEED * dt) / 1000
    } else {
        -(((-v) * BALL_SPEED * dt) / 1000)
    }
}

/// Floor of the square root, for the small radicands of direction scaling.
fn isqrt(n: i64) -> (r: i64)
    requires
        0 <= n <= 4_000_000,
    ensures
        r * r <= n < (r + 1) * (r + 1),
        0 <= r <= 2000,
{
    let mut r: i64 = 0;
    loop
        invariant
            0 <= r <= 2000,
            r * r <= n <= 4_000_000,
        decreases 4_000_000 - r,
    {
        proof {
            assert((r + 1) * (r + 1) <= 4_008_004) by (nonlinear_arith)
                requires
                    0 <= r <= 2000,
            ;
        }
        if (r + 1) * (r + 1) <= n {
            proof {
                assert(r + 1 <= 2000) by (nonlinear_arith)
                    requires
                        (r + 1) * (r + 1) <= 4_000_000,
                        0 <= r,
                ;
            }
            r = r + 1;
        } else {
            return r;
        }
    }
}

/// Initial ball direction from a raw draw in [-1000, 1000): the vector
/// (steer, 1000), scaled to unit length in thousandths.
fn ball_dir(steer: i64) -> (v: Vel)
    requires
        -1000 <= steer < 1000,
    ensures
        dir_for(steer as int, v@),
        1 <= v@.y <= 1000,
        -1000 <= v@.x <= 1000,
{
    proof {
        assert(0 <= (steer as int) * (steer as int) <= 1_000_000) by (nonlinear_arith)
            requires
                -1000 <= (steer as int) && (steer as int) < 1000,
        ;
    }
    let n = steer * steer + 1_000_000;
    let m = isqrt(n);
    proof {
        assert(1000 <= m && m <= 1414) by (nonlinear_arith)
            requires
                m * m <= (n as int) && (n as int) < (m + 1) * (m + 1),
                1_000_000 <= n as int <= 2_000_000,
                0 <= m <= 2000,
        ;
        assert(707 <= 1_000_000 as int / (m as int) <= 1000) by (nonlinear_arith)
            requires
                1000 <= m as int <= 1414,
        ;
    }
    let vy = 1_000_000 / m;
    let vx = if steer >= 0 {
        proof {
            assert(0 <= (steer as int) * 1000 <= ((steer as int) * 1000) && (steer as int) * 1000
                <= 999_000) by (nonlinear_arith)
                requires
                    0 <= steer as int <= 999,
            ;
            assert(0 <= ((steer as int) * 1000) / (m as int) <= 1000) by (nonlinear_arith)
                requires
                    0 <= (steer as int) * 1000 <= 999_000,
                    1000 <= m as int <= 1414,
            ;
        }
        (steer * 1000) / m
    } else {
        proof {
            assert(0 <= ((-(steer as int)) * 1000) && (-(steer as int)) * 1000 <= 1_000_000)
                by (nonlinear_arith)
                requires
                    -1000 <= (steer as int) && (steer as int) < 0,
            ;
            assert(0 <= ((-(steer as int)) * 1000) / (m as int) <= 1000) by (nonlinear_arith)
                requires
                    0 <= (-(steer as int)) * 1000 <= 1_000_000,
                    1000 <= m as int <= 1414,
            ;
        }
        -(((-steer) * 1000) / m)
    };
    Vel { x: vx, y: vy }
}

/// Relies on macroquad::rand::gen_range::<i64> (quad_rand): it returns
/// low + (high - low) * k / 2^32 truncated toward zero for a pseudo-random
/// k < 2^32, which for this small range always lies in [-1000, 1000).
#[verifier::external_body]
fn random_steer() -> (r: i64)
    ensures
        -1000 <= r < 1000,
{
    macroquad::rand::gen_range(-1000i64, 1000i64)
}

impl Ball {
    /// A fresh ball at `pos`, moving downward with a randomly slanted,
    /// near-unit direction.
    pub fn new(pos: Pos) -> (b: Ball)
        ensures
            b@.rect == (RectV {
                x: pos.x as int,
                y: pos.y as int,
                w: BALL_SIZE as int,
                h: BALL_SIZE as int,
            }),
            exists|s: int| -1000 <= s < 1000 && dir_for(s, b@.vel),
            1 <= b@.vel.y <= 1000,
            -1000 <= b@.vel.x <= 1000,
    {
        let steer = random_steer();
        Ball::with_steer(pos, steer)
    }

    /// A fresh ball at `pos` whose slant is chosen by the caller; the random
    /// constructor draws the steer and delegates here.
    pub fn with_steer(pos: Pos, steer: i64) -> (b: Ball)
        requires
            -1000 <= steer < 1000,
        ensures
            b@.rect == (RectV {
                x: pos.x as int,
                y: pos.y as int,
                w: BALL_SIZE as int,
                h: BALL_SIZE as int,
            }),
            dir_for(steer as int, b@.vel),
            1 <= b@.vel.y <= 1000,
            -1000 <= b@.vel.x <= 1000,
    {
        Ball {
            rect: Rect { x: pos.x, y: pos.y, w: BALL_SIZE, h: BALL_SIZE },
            vel: ball_dir(steer),
        }
    }

    /// One frame of movement and edge bounces.
    pub fn update(&mut self, dt: i64, sw: i64)
        requires
            ball_ok(old(self)@),
            0 <= dt <= DT_LIMIT,
            0 <= sw <= DIM_LIMIT,
        ensures
            final(self)@ == spec_ball_move(old(self)@, dt as int, sw as int),
            vel_ok(final(self)@.vel),
            final(self).rect.w == old(self).rect.w && final(self).rect.h == old(self).rect.h,
            ball_bounded(final(self)@, MOVED_COORD as int),
    {
        let dx = ball_step_exec(self.vel.x, dt);
        let dy = ball_step_exec(self.vel.y, dt);
        self.rect.x = self.rect.x + dx;
        self.rect.y = self.rect.y + dy;
        if self.rect.x < 0 {
            self.vel.x = VEL_UNIT;
        }
        if self.rect.x > sw - self.rect.w {
            self.vel.x = -VEL_UNIT;
        }
        if self.rect.y < 0 {
            self.vel.y = VEL_UNIT;
        }
    }
}

} // verus!
