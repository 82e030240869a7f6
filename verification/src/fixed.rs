//! Fixed-point plane geometry.
//!
//! World quantities (offsets, velocities, impulses) are carried as pairs of
//! `i64` subunit counts, `SCALE` subunits to the world unit.  A rotation is
//! carried as its cosine and sine, also in subunits.  All operations round
//! toward zero, and every contract states the exact integer result.

use vstd::prelude::*;
use vstd::arithmetic::div_mod::lemma_div_is_ordered;
use vstd::arithmetic::div_mod::lemma_div_multiples_vanish;
use vstd::arithmetic::div_mod::lemma_div_pos_is_pos;

verus! {

/// Number of fixed-point subunits in one world unit.
pub const SCALE: i64 = 1000;

/// Bound on the subunit coordinates of a local offset or level coordinate.
pub const OFF_LIMIT: i64 = 1_000_000;

/// Bound on the subunit coordinates of a velocity, force or impulse
/// accumulator entering a tick.
pub const VEL_LIMIT: i64 = 1_000_000_000;

/// A plane vector in fixed-point subunits.
#[derive(Clone, Copy, Debug, PartialEq, Eq, Structural)]
pub struct Vec2Fx {
    pub x: i64,
    pub y: i64,
}

/// A plane rotation: cosine and sine in fixed-point subunits.
#[derive(Clone, Copy, Debug, PartialEq, Eq, Structural)]
pub struct Rot2Fx {
    pub cos: i64,
    pub sin: i64,
}

impl Vec2Fx {
    /// The zero vector.
    pub fn zero() -> (v: Vec2Fx)
        ensures
            v.x == 0 && v.y == 0,
    {
        Vec2Fx { x: 0, y: 0 }
    }

    /// Both coordinates within `b` subunits of zero.
    pub open spec fn bounded(self, b: int) -> bool {
        -b <= self.x <= b && -b <= self.y <= b
    }
}

impl Rot2Fx {
    /// A well-formed rotation: cosine and sine lie within one unit.
    pub open spec fn wf(self) -> bool {
        -SCALE <= self.cos <= SCALE && -SCALE <= self.sin <= SCALE
    }

    /// The identity rotation.
    pub fn identity() -> (r: Rot2Fx)
        ensures
            r.cos == SCALE && r.sin == 0,
            r.wf(),
    {
        Rot2Fx { cos: SCALE, sin: 0 }
    }
}

/// Truncating division by `SCALE` (rounds toward zero, as the executable
/// fixed-point code does; spec-level `/` alone would round toward
/// negative infinity).
pub open spec fn div_scale(a: int) -> int {
    if a >= 0 {
        a / (SCALE as int)
    } else {
        -((-a) / (SCALE as int))
    }
}

/// `div_scale` maps `[-m, m]` into `[-m/SCALE, m/SCALE]`.
pub proof fn lemma_div_scale_bound(a: int, m: int)
    requires
        0 <= m,
        -m <= a <= m,
    ensures
        -(m / (SCALE as int)) <= div_scale(a) <= m / (SCALE as int),
{
    if a >= 0 {
        lemma_div_is_ordered(a, m, SCALE as int);
        lemma_div_pos_is_pos(a, SCALE as int);
    } else {
        lemma_div_is_ordered(-a, m, SCALE as int);
        lemma_div_pos_is_pos(-a, SCALE as int);
    }
}

/// `|a * b| <= bound_a * bound_b` whenever `|a| <= bound_a`, `|b| <= bound_b`.
pub proof fn lemma_abs_mul_le(a: int, b: int, bound_a: int, bound_b: int)
    by (nonlinear_arith)
    requires
        -bound_a <= a <= bound_a,
        -bound_b <= b <= bound_b,
        0 <= bound_a,
        0 <= bound_b,
    ensures
        -(bound_a * bound_b) <= a * b <= bound_a * bound_b,
{
}

/// Executable truncating division by `SCALE`.
pub fn div_scale_i64(a: i64) -> (r: i64)
    requires
        -0x4000_0000_0000_0000 <= a <= 0x4000_0000_0000_0000,
    ensures
        r == div_scale(a as int),
{
    if a >= 0 {
        a / SCALE
    } else {
        -((-a) / SCALE)
    }
}

/// First coordinate of a rotation applied to a vector.
pub open spec fn rot_app_x(r: Rot2Fx, v: Vec2Fx) -> int {
    div_scale(r.cos * v.x - r.sin * v.y)
}

/// Second coordinate of a rotation applied to a vector.
pub open spec fn rot_app_y(r: Rot2Fx, v: Vec2Fx) -> int {
    div_scale(r.sin * v.x + r.cos * v.y)
}

/// Applies the rotation `r` to `v`: the direction a body-local offset takes
/// in world space once the body is turned by `r`.
pub fn rotate(r: Rot2Fx, v: Vec2Fx) -> (w: Vec2Fx)
    requires
        r.wf(),
        v.bounded(OFF_LIMIT as int),
    ensures
        w.x == rot_app_x(r, v),
        w.y == rot_app_y(r, v),
        w.bounded(2 * OFF_LIMIT),
{
    proof {
        lemma_abs_mul_le(r.cos as int, v.x as int, SCALE as int, OFF_LIMIT as int);
        lemma_abs_mul_le(r.sin as int, v.y as int, SCALE as int, OFF_LIMIT as int);
        lemma_abs_mul_le(r.sin as int, v.x as int, SCALE as int, OFF_LIMIT as int);
        lemma_abs_mul_le(r.cos as int, v.y as int, SCALE as int, OFF_LIMIT as int);
        lemma_div_scale_bound(r.cos * v.x - r.sin * v.y, 2 * SCALE * OFF_LIMIT);
        lemma_div_scale_bound(r.sin * v.x + r.cos * v.y, 2 * SCALE * OFF_LIMIT);
    }
    Vec2Fx { x: div_scale_i64(r.cos * v.x - r.sin * v.y), y: div_scale_i64(r.sin * v.x + r.cos * v.y) }
}

/// `div_scale` undoes an exact multiplication by `SCALE`: no rounding.
pub proof fn lemma_div_scale_exact(k: int)
    ensures
        div_scale(k * (SCALE as int)) == k,
{
    if k >= 0 {
        assert(0 <= k * (SCALE as int)) by (nonlinear_arith)
            requires
                0 <= k,
        ;
        lemma_div_multiples_vanish(k, SCALE as int);
        assert(k * (SCALE as int) == (SCALE as int) * k);
    } else {
        assert(k * (SCALE as int) < 0) by (nonlinear_arith)
            requires
                k < 0,
        ;
        lemma_div_multiples_vanish(-k, SCALE as int);
        assert(-(k * (SCALE as int)) == (SCALE as int) * (-k));
    }
}

/// Cosine of the composition of two rotations, `a` after `b`.
pub open spec fn rot_comp_cos(a: Rot2Fx, b: Rot2Fx) -> int {
    div_scale(a.cos * b.cos - a.sin * b.sin)
}

/// Sine of the composition of two rotations, `a` after `b`.
pub open spec fn rot_comp_sin(a: Rot2Fx, b: Rot2Fx) -> int {
    div_scale(a.sin * b.cos + a.cos * b.sin)
}

/// Composes two rotations: the rotation that turns by `b`, then by `a`.
/// The components are exact up to the one rounding `div_scale` makes;
/// they stay within two units (for true unit rotations they stay within
/// one, but the representation alone cannot promise it).
pub fn rot_compose(a: Rot2Fx, b: Rot2Fx) -> (r: Rot2Fx)
    requires
        a.wf(),
        b.wf(),
    ensures
        r.cos == rot_comp_cos(a, b),
        r.sin == rot_comp_sin(a, b),
        -2 * SCALE <= r.cos <= 2 * SCALE,
        -2 * SCALE <= r.sin <= 2 * SCALE,
{
    proof {
        lemma_abs_mul_le(a.cos as int, b.cos as int, SCALE as int, SCALE as int);
        lemma_abs_mul_le(a.sin as int, b.sin as int, SCALE as int, SCALE as int);
        lemma_abs_mul_le(a.sin as int, b.cos as int, SCALE as int, SCALE as int);
        lemma_abs_mul_le(a.cos as int, b.sin as int, SCALE as int, SCALE as int);
        lemma_div_scale_bound(a.cos * b.cos - a.sin * b.sin, 2 * SCALE * SCALE);
        lemma_div_scale_bound(a.sin * b.cos + a.cos * b.sin, 2 * SCALE * SCALE);
    }
    Rot2Fx {
        cos: div_scale_i64(a.cos * b.cos - a.sin * b.sin),
        sin: div_scale_i64(a.sin * b.cos + a.cos * b.sin),
    }
}

/// Composing with the identity rotation is exact: the rounding
/// vanishes and the other rotation comes back unchanged.
pub proof fn lemma_rot_compose_identity(a: Rot2Fx)
    ensures
        rot_comp_cos(a, Rot2Fx { cos: SCALE, sin: 0 }) == a.cos,
        rot_comp_sin(a, Rot2Fx { cos: SCALE, sin: 0 }) == a.sin,
{
    lemma_div_scale_exact(a.cos as int);
    lemma_div_scale_exact(a.sin as int);
}

/// The vector `v` turned a quarter turn counter-clockwise.  This is exact:
/// no rounding is involved.
pub fn perp(v: Vec2Fx) -> (w: Vec2Fx)
    requires
        v.bounded(0x7fff_ffff_ffff_fffe),
    ensures
        w.x == -v.y,
        w.y == v.x,
{
    Vec2Fx { x: -v.y, y: v.x }
}

/// Clamp of a non-negative spec value to one unit.
pub open spec fn clamp_unit(a: int) -> int {
    if a > SCALE as int {
        SCALE as int
    } else {
        a
    }
}

/// Absolute value of a subunit count.
pub open spec fn abs_fx(a: int) -> int {
    if a >= 0 {
        a
    } else {
        -a
    }
}

} // verus!
