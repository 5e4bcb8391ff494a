use vstd::prelude::*;

verus! {

// All positions and sizes are in thousandths of a pixel, so that the
// simulation is exact integer arithmetic.  One pixel is 1000 units.

/// Largest width or height of any rectangle the game handles.
pub const DIM_LIMIT: i64 = 10_000_000;

/// Bound on coordinates of a well-formed game state at a frame boundary.
pub const COORD_LIMIT: i64 = 1_000_000_000_000;

/// Looser bound under which every intermediate coordinate of a frame still
/// leaves all i64 arithmetic of this module exact.
pub const COORD_SAFE: i64 = 10_000_000_000_000_000;

/// Bound on the magnitude of a velocity component (unit velocity is 1000).
pub const VEL_LIMIT: i64 = 10_000;

/// An axis-aligned rectangle: position of the top-left corner and size.
#[derive(Clone, Copy, PartialEq, Eq, Structural, Debug)]
pub struct Rect {
    pub x: i64,
    pub y: i64,
    pub w: i64,
    pub h: i64,
}

/// A velocity direction vector, in thousandths of the unit speed.
#[derive(Clone, Copy, PartialEq, Eq, Structural, Debug)]
pub struct Vel {
    pub x: i64,
    pub y: i64,
}

/// A point, used for spawn positions.
#[derive(Clone, Copy, PartialEq, Eq, Structural, Debug)]
pub struct Pos {
    pub x: i64,
    pub y: i64,
}

/// Mathematical image of a rectangle.
pub struct RectV {
    pub x: int,
    pub y: int,
    pub w: int,
    pub h: int,
}

/// Mathematical image of a velocity.
pub struct VelV {
    pub x: int,
    pub y: int,
}

/// Mathematical image of a point.
pub struct PosV {
    pub x: int,
    pub y: int,
}

impl View for Rect {
    type V = RectV;

    open spec fn view(&self) -> RectV {
        RectV { x: self.x as int, y: self.y as int, w: self.w as int, h: self.h as int }
    }
}

impl View for Vel {
    type V = VelV;

    open spec fn view(&self) -> VelV {
        VelV { x: self.x as int, y: self.y as int }
    }
}

impl View for Pos {
    type V = PosV;

    open spec fn view(&self) -> PosV {
        PosV { x: self.x as int, y: self.y as int }
    }
}

pub open spec fn abs_i(v: int) -> int {
    if v >= 0 {
        v
    } else {
        -v
    }
}

/// The sign a mover is pushed against: 1 for a non-negative offset, -1 otherwise.
pub open spec fn sign_to(d: int) -> int {
    if d >= 0 {
        1
    } else {
        -1
    }
}

pub open spec fn rect_ok(r: RectV) -> bool {
    &&& -COORD_LIMIT <= r.x <= COORD_LIMIT
    &&& -COORD_LIMIT <= r.y <= COORD_LIMIT
    &&& 0 <= r.w <= DIM_LIMIT
    &&& 0 <= r.h <= DIM_LIMIT
}

pub open spec fn rect_safe(r: RectV) -> bool {
    &&& -COORD_SAFE <= r.x <= COORD_SAFE
    &&& -COORD_SAFE <= r.y <= COORD_SAFE
    &&& 0 <= r.w <= DIM_LIMIT
    &&& 0 <= r.h <= DIM_LIMIT
}

pub open spec fn vel_ok(v: VelV) -> bool {
    &&& -VEL_LIMIT <= v.x <= VEL_LIMIT
    &&& -VEL_LIMIT <= v.y <= VEL_LIMIT
}

/// Twice the x coordinate of the rectangle's center (doubling keeps the
/// arithmetic exact; only the sign of a difference of centers is ever used).
pub open spec fn center2_x(r: RectV) -> int {
    2 * r.x + r.w
}

/// Twice the y coordinate of the rectangle's center.
pub open spec fn center2_y(r: RectV) -> int {
    2 * r.y + r.h
}

pub open spec fn min_i(a: int, b: int) -> int {
    if a < b {
        a
    } else {
        b
    }
}

pub open spec fn max_i(a: int, b: int) -> int {
    if a > b {
        a
    } else {
        b
    }
}

/// Whether the two rectangles share at least a point (a shared edge counts).
pub open spec fn overlaps(a: RectV, b: RectV) -> bool {
    !(min_i(a.x + a.w, b.x + b.w) < max_i(a.x, b.x) || min_i(a.y + a.h, b.y + b.h) < max_i(
        a.y,
        b.y,
    ))
}

/// Width of the overlap rectangle (meaningful only when `overlaps` holds).
pub open spec fn overlap_w(a: RectV, b: RectV) -> int {
    min_i(a.x + a.w, b.x + b.w) - max_i(a.x, b.x)
}

/// Height of the overlap rectangle (meaningful only when `overlaps` holds).
pub open spec fn overlap_h(a: RectV, b: RectV) -> int {
    min_i(a.y + a.h, b.y + b.h) - max_i(a.y, b.y)
}

/// Separation of a moving rectangle `a` with velocity `v` from a static `b`:
/// if they do not overlap nothing changes; otherwise the mover is pushed out
/// along the axis of least penetration, away from `b`'s center, and the
/// matching velocity component is flipped to point away, keeping its
/// magnitude.  The horizontal push distance deliberately reuses the overlap
/// height rather than its width: that is this game's exact separation rule,
/// and callers and tests depend on it.
pub open spec fn spec_resolve(a: RectV, v: VelV, b: RectV) -> (RectV, VelV, bool) {
    if !overlaps(a, b) {
        (a, v, false)
    } else {
        let ow = overlap_w(a, b);
        let oh = overlap_h(a, b);
        let sx = sign_to(center2_x(b) - center2_x(a));
        let sy = sign_to(center2_y(b) - center2_y(a));
        if ow > oh {
            (
                RectV { x: a.x, y: if sy == 1 { a.y - oh } else { a.y + oh }, w: a.w, h: a.h },
                VelV { x: v.x, y: if sy == 1 { -abs_i(v.y) } else { abs_i(v.y) } },
                true,
            )
        } else {
            (
                RectV { x: if sx == 1 { a.x - oh } else { a.x + oh }, y: a.y, w: a.w, h: a.h },
                VelV { x: if sx == 1 { -abs_i(v.x) } else { abs_i(v.x) }, y: v.y },
                true,
            )
        }
    }
}

/// Collision response between the moving rectangle `a` (with velocity `vel`)
/// and the static rectangle `b`; returns whether a collision was resolved.
pub fn resolve_collision(a: &mut Rect, vel: &mut Vel, b: &Rect) -> (hit: bool)
    requires
        rect_safe(old(a)@),
        rect_safe(b@),
        vel_ok(old(vel)@),
    ensures
        (final(a)@, final(vel)@, hit) == spec_resolve(old(a)@, old(vel)@, b@),
        !overlaps(old(a)@, b@) ==> !hit && *final(a) == *old(a) && *final(vel) == *old(vel),
        final(a).w == old(a).w && final(a).h == old(a).h,
        abs_i(final(a)@.x) <= abs_i(old(a)@.x) + DIM_LIMIT,
        abs_i(final(a)@.y) <= abs_i(old(a)@.y) + DIM_LIMIT,
        vel_ok(final(vel)@),
{
    let left: i64 = if a.x > b.x {
        a.x
    } else {
        b.x
    };
    let top: i64 = if a.y > b.y {
        a.y
    } else {
        b.y
    };
    let a_right = a.x + a.w;
    let b_right = b.x + b.w;
    let right: i64 = if a_right < b_right {
        a_right
    } else {
        b_right
    };
    let a_bottom = a.y + a.h;
    let b_bottom = b.y + b.h;
    let bottom: i64 = if a_bottom < b_bottom {
        a_bottom
    } else {
        b_bottom
    };
    if right < left || bottom < top {
        return false;
    }
    let ow = right - left;
    let oh = bottom - top;
    let a_cx = 2 * a.x + a.w;
    let a_cy = 2 * a.y + a.h;
    let b_cx = 2 * b.x + b.w;
    let b_cy = 2 * b.y + b.h;
    let sx: i64 = if b_cx - a_cx >= 0 {
        1
    } else {
        -1
    };
    let sy: i64 = if b_cy - a_cy >= 0 {
        1
    } else {
        -1
    };
    if ow > oh {
        let mag = if vel.y >= 0 {
            vel.y
        } else {
            -vel.y
        };
        if sy == 1 {
            a.y = a.y - oh;
            vel.y = -mag;
        } else {
            a.y = a.y + oh;
            vel.y = mag;
        }
    } else {
        let mag = if vel.x >= 0 {
            vel.x
        } else {
            -vel.x
        };
        if sx == 1 {
            a.x = a.x - oh;
            vel.x = -mag;
        } else {
            a.x = a.x + oh;
            vel.x = mag;
        }
    }
    true
}

/// Runtime check of `rect_ok`.
pub fn rect_within(r: &Rect) -> (ok: bool)
    ensures
        ok == rect_ok(r@),
{
    -COORD_LIMIT <= r.x && r.x <= COORD_LIMIT && -COORD_LIMIT <= r.y && r.y <= COORD_LIMIT && 0
        <= r.w && r.w <= DIM_LIMIT && 0 <= r.h && r.h <= DIM_LIMIT
}

/// Runtime check of `vel_ok`.
pub fn vel_within(v: &Vel) -> (ok: bool)
    ensures
        ok == vel_ok(v@),
{
    -VEL_LIMIT <= v.x && v.x <= VEL_LIMIT && -VEL_LIMIT <= v.y && v.y <= VEL_LIMIT
}

/// Resolving disjoint rectangles is a no-op and reports no collision, so the
/// resolution is idempotent on disjoint inputs: a second application sees the
/// same disjoint pair and changes nothing either.
pub proof fn lemma_resolve_disjoint_noop(a: RectV, v: VelV, b: RectV)
    requires
        !overlaps(a, b),
    ensures
        spec_resolve(a, v, b) == (a, v, false),
        spec_resolve(spec_resolve(a, v, b).0, spec_resolve(a, v, b).1, b) == (a, v, false),
{
}

} // verus!
