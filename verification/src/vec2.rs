use vstd::prelude::*;

use crate::fixed::{absi, isqrt, isqrt_spec, lemma_abs_mul, lemma_sq_nonneg, lemma_tdiv_bounds,
    tdiv, UNIT};

verus! {

/// A two-dimensional vector of fixed-point scalars (millionths of a world unit).
#[derive(Clone, Copy, PartialEq, Eq, Structural, Debug)]
pub struct Vec2 {
    pub x: i128,
    pub y: i128,
}

/// The mathematical value of a `Vec2`: a pair of unbounded integers.
pub struct Vec2Model {
    pub x: int,
    pub y: int,
}

impl View for Vec2 {
    type V = Vec2Model;

    open spec fn view(&self) -> Vec2Model {
        Vec2Model { x: self.x as int, y: self.y as int }
    }
}

/// Dot product of two vector models, in squared fixed-point steps.
pub open spec fn dot(a: Vec2Model, b: Vec2Model) -> int {
    a.x * b.x + a.y * b.y
}

/// The z component of the cross product of two vector models, in squared
/// fixed-point steps.
pub open spec fn perp_dot(a: Vec2Model, b: Vec2Model) -> int {
    a.x * b.y - a.y * b.x
}

/// Counter-clockwise perpendicular of a vector model.
pub open spec fn perp(a: Vec2Model) -> Vec2Model {
    Vec2Model { x: -a.y, y: a.x }
}

/// Difference of two vector models.
pub open spec fn vsub(a: Vec2Model, b: Vec2Model) -> Vec2Model {
    Vec2Model { x: a.x - b.x, y: a.y - b.y }
}

/// Squared length of a vector model, in squared fixed-point steps.
pub open spec fn len_sq(a: Vec2Model) -> int {
    a.x * a.x + a.y * a.y
}

/// Both components are bounded by `m` in magnitude.
pub open spec fn in_box(a: Vec2Model, m: int) -> bool {
    absi(a.x) <= m && absi(a.y) <= m
}

/// The model of the unit-direction vector of `v`: each component is scaled by
/// `UNIT` and divided, truncating, by the integer square root of the squared
/// length.
pub open spec fn normalized(v: Vec2Model) -> Vec2Model {
    let l = isqrt_spec(len_sq(v) as nat) as int;
    Vec2Model { x: tdiv(v.x * UNIT, l), y: tdiv(v.y * UNIT, l) }
}

/// A vector model whose squared length is within ten millionths of one world
/// unit of exactly one: the fixed-point meaning of "magnitude 1 (within 1e-5)".
pub open spec fn near_unit(n: Vec2Model) -> bool {
    (UNIT - 10) * (UNIT - 10) <= len_sq(n) <= (UNIT + 10) * (UNIT + 10)
}

/// Minimum squared length (one tenth of a world unit, squared) from which
/// truncating normalization is guaranteed to produce a near-unit vector.
pub const MIN_NORM_SQ: i128 = 10_000_000_000;

/// Truncating fixed-point normalization never produces a component beyond
/// `UNIT`, and from `MIN_NORM_SQ` squared length up it lands within ten
/// millionths of unit magnitude.
pub proof fn lemma_normalized_bounds(v: Vec2Model)
    requires
        len_sq(v) >= 1,
    ensures
        absi(normalized(v).x) <= UNIT,
        absi(normalized(v).y) <= UNIT,
        len_sq(v) >= MIN_NORM_SQ ==> near_unit(normalized(v)),
{
    let s = len_sq(v);
    let l = isqrt_spec(s as nat) as int;
    crate::fixed::lemma_isqrt_spec_bounds(s as nat);
    assert(l * l <= s < (l + 1) * (l + 1));
    assert(l >= 1) by (nonlinear_arith)
        requires
            l >= 0,
            (l + 1) * (l + 1) > s,
            s >= 1,
    {
    }
    let ax = absi(v.x);
    let ay = absi(v.y);
    let cx = absi(normalized(v).x);
    let cy = absi(normalized(v).y);
    lemma_tdiv_bounds(v.x * UNIT, l);
    lemma_tdiv_bounds(v.y * UNIT, l);
    lemma_abs_mul(v.x, UNIT as int);
    lemma_abs_mul(v.y, UNIT as int);
    assert(cx * l <= ax * UNIT && (cx + 1) * l > ax * UNIT);
    assert(cy * l <= ay * UNIT && (cy + 1) * l > ay * UNIT);
    lemma_abs_mul(v.x, v.x);
    lemma_abs_mul(v.y, v.y);
    lemma_sq_nonneg(v.x);
    lemma_sq_nonneg(v.y);
    assert(s == ax * ax + ay * ay);
    // Componentwise cap: the square root is at least each component's magnitude.
    assert(l >= ax && l >= ay) by (nonlinear_arith)
        requires
            l >= 0,
            ax >= 0,
            ay >= 0,
            (l + 1) * (l + 1) > ax * ax + ay * ay,
    {
    }
    assert(cx <= UNIT && cy <= UNIT) by (nonlinear_arith)
        requires
            l >= 1,
            0 <= ax <= l,
            0 <= ay <= l,
            cx * l <= ax * UNIT,
            cy * l <= ay * UNIT,
            cx >= 0,
            cy >= 0,
    {
    }
    if s >= MIN_NORM_SQ {
        assert(l >= 100_000) by (nonlinear_arith)
            requires
                l >= 0,
                (l + 1) * (l + 1) > s,
                s >= 10_000_000_000,
        {
        }
        // Upper bound on the squared magnitude of the normalized vector.
        assert((cx * cx + cy * cy) * (l * l) <= s * (UNIT * UNIT)) by (nonlinear_arith)
            requires
                l >= 1,
                0 <= cx * l <= ax * UNIT,
                0 <= cy * l <= ay * UNIT,
                s == ax * ax + ay * ay,
                ax >= 0,
                ay >= 0,
        {
        }
        assert(s * (UNIT * UNIT) < ((UNIT + 10) * l) * ((UNIT + 10) * l)) by (nonlinear_arith)
            requires
                l >= 100_000,
                s < (l + 1) * (l + 1),
                UNIT == 1_000_000,
        {
        }
        assert(cx * cx + cy * cy <= (UNIT + 10) * (UNIT + 10)) by (nonlinear_arith)
            requires
                l >= 1,
                (cx * cx + cy * cy) * (l * l) < ((UNIT + 10) * l) * ((UNIT + 10) * l),
                cx >= 0,
                cy >= 0,
                UNIT == 1_000_000,
        {
        }
        // Lower bound: each component loses less than one step to truncation.
        assert((UNIT * UNIT) * (l * l) <= s * (UNIT * UNIT)) by (nonlinear_arith)
            requires
                l * l <= s,
                UNIT == 1_000_000,
        {
        }
        assert((ax * UNIT) * (ax * UNIT) < ((cx + 1) * (cx + 1)) * (l * l)) by (nonlinear_arith)
            requires
                0 <= ax * UNIT < (cx + 1) * l,
        {
        }
        assert((ay * UNIT) * (ay * UNIT) < ((cy + 1) * (cy + 1)) * (l * l)) by (nonlinear_arith)
            requires
                0 <= ay * UNIT < (cy + 1) * l,
        {
        }
        assert(s * (UNIT * UNIT) < ((cx + 1) * (cx + 1) + (cy + 1) * (cy + 1)) * (l * l))
            by (nonlinear_arith)
            requires
                s == ax * ax + ay * ay,
                (ax * UNIT) * (ax * UNIT) < ((cx + 1) * (cx + 1)) * (l * l),
                (ay * UNIT) * (ay * UNIT) < ((cy + 1) * (cy + 1)) * (l * l),
        {
        }
        assert(UNIT * UNIT < (cx + 1) * (cx + 1) + (cy + 1) * (cy + 1)) by (nonlinear_arith)
            requires
                l >= 1,
                (UNIT * UNIT) * (l * l) < ((cx + 1) * (cx + 1) + (cy + 1) * (cy + 1)) * (l * l),
                UNIT == 1_000_000,
        {
        }
        assert((UNIT - 10) * (UNIT - 10) <= cx * cx + cy * cy) by (nonlinear_arith)
            requires
                UNIT * UNIT < (cx + 1) * (cx + 1) + (cy + 1) * (cy + 1),
                0 <= cx <= UNIT,
                0 <= cy <= UNIT,
                UNIT == 1_000_000,
        {
        }
    }
    lemma_abs_mul(normalized(v).x, normalized(v).x);
    lemma_abs_mul(normalized(v).y, normalized(v).y);
    lemma_sq_nonneg(normalized(v).x);
    lemma_sq_nonneg(normalized(v).y);
    assert(len_sq(normalized(v)) == cx * cx + cy * cy);
}

/// Componentwise bound accepted by the executable vector arithmetic below.
pub const VEC_ARITH_LIMIT: i128 = 10_000_000_000_000;

/// Difference of two bounded vectors.
pub fn sub_vec(a: Vec2, b: Vec2) -> (r: Vec2)
    requires
        in_box(a@, VEC_ARITH_LIMIT as int),
        in_box(b@, VEC_ARITH_LIMIT as int),
    ensures
        r@ == vsub(a@, b@),
        in_box(r@, 2 * VEC_ARITH_LIMIT as int),
{
    Vec2 { x: a.x - b.x, y: a.y - b.y }
}

/// Dot product of two bounded vectors.
pub fn dot_vec(a: Vec2, b: Vec2) -> (r: i128)
    requires
        in_box(a@, VEC_ARITH_LIMIT as int),
        in_box(b@, VEC_ARITH_LIMIT as int),
    ensures
        r == dot(a@, b@),
{
    proof {
        lemma_mul_box(a@.x, b@.x);
        lemma_mul_box(a@.y, b@.y);
    }
    a.x * b.x + a.y * b.y
}

/// The z component of the cross product of two bounded vectors.
pub fn perp_dot_vec(a: Vec2, b: Vec2) -> (r: i128)
    requires
        in_box(a@, VEC_ARITH_LIMIT as int),
        in_box(b@, VEC_ARITH_LIMIT as int),
    ensures
        r == perp_dot(a@, b@),
{
    proof {
        lemma_mul_box(a@.x, b@.y);
        lemma_mul_box(a@.y, b@.x);
    }
    a.x * b.y - a.y * b.x
}

/// Squared length of a bounded vector.
pub fn len_sq_vec(a: Vec2) -> (r: i128)
    requires
        in_box(a@, VEC_ARITH_LIMIT as int),
    ensures
        r == len_sq(a@),
        r >= 0,
{
    proof {
        lemma_mul_box(a@.x, a@.x);
        lemma_mul_box(a@.y, a@.y);
        lemma_sq_nonneg(a@.x);
        lemma_sq_nonneg(a@.y);
    }
    a.x * a.x + a.y * a.y
}

/// A product of two scalars within the arithmetic bound stays far inside the
/// 128-bit range.
proof fn lemma_mul_box(a: int, b: int)
    requires
        absi(a) <= VEC_ARITH_LIMIT,
        absi(b) <= VEC_ARITH_LIMIT,
    ensures
        absi(a * b) <= 100_000_000_000_000_000_000_000_000int,
{
    lemma_abs_mul(a, b);
    assert(absi(a) * absi(b) <= 100_000_000_000_000_000_000_000_000int) by (nonlinear_arith)
        requires
            0 <= absi(a) <= VEC_ARITH_LIMIT,
            0 <= absi(b) <= VEC_ARITH_LIMIT,
            VEC_ARITH_LIMIT == 10_000_000_000_000,
    {
    }
}

/// Truncating fixed-point normalization of a nonzero vector.
pub fn normalize(v: Vec2) -> (n: Vec2)
    requires
        in_box(v@, 4_000_000_000_000),
        len_sq(v@) >= 1,
    ensures
        n@ == normalized(v@),
        absi(n@.x) <= UNIT,
        absi(n@.y) <= UNIT,
        len_sq(v@) >= MIN_NORM_SQ ==> near_unit(n@),
{
    proof {
        assert(v.x * v.x <= 16_000_000_000_000_000_000_000_000int && v.y * v.y
            <= 16_000_000_000_000_000_000_000_000int) by (nonlinear_arith)
            requires
                absi(v.x as int) <= 4_000_000_000_000,
                absi(v.y as int) <= 4_000_000_000_000,
        {
        }
    }
    let sq: i128 = v.x * v.x + v.y * v.y;
    let l_u: u128 = isqrt(sq as u128);
    proof {
        assert(l_u >= 1 && l_u * l_u <= sq) by (nonlinear_arith)
            requires
                l_u * l_u <= sq as u128,
                (l_u + 1) * (l_u + 1) > sq as u128,
                sq >= 1,
        {
        }
        lemma_normalized_bounds(v@);
        lemma_tdiv_bounds(v.x as int * UNIT, l_u as int);
        lemma_tdiv_bounds(v.y as int * UNIT, l_u as int);
        lemma_abs_mul(v.x as int, UNIT as int);
        lemma_abs_mul(v.y as int, UNIT as int);
    }
    let l: i128 = l_u as i128;
    let nx: i128 = crate::fixed::div_trunc(v.x * UNIT, l);
    let ny: i128 = crate::fixed::div_trunc(v.y * UNIT, l);
    Vec2 { x: nx, y: ny }
}

} // verus!
