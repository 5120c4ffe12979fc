use vstd::prelude::*;
use vstd::arithmetic::div_mod::{lemma_fundamental_div_mod, lemma_mod_bound};

verus! {

/// Number of fixed-point steps per world unit: every scalar quantity in this
/// crate is an integer counted in millionths of a world unit.
pub const UNIT: i128 = 1_000_000;

/// Absolute value of a mathematical integer.
pub open spec fn absi(a: int) -> int {
    if a >= 0 {
        a
    } else {
        -a
    }
}

/// Truncating (round-toward-zero) division, the rounding used by all
/// fixed-point operations in this crate. Meaningful only for positive divisors.
pub open spec fn tdiv(a: int, b: int) -> int {
    if a >= 0 {
        a / b
    } else {
        -((-a) / b)
    }
}

/// Clamp an integer into the closed interval `[lo, hi]`.
pub open spec fn clamp(v: int, lo: int, hi: int) -> int {
    if v < lo {
        lo
    } else if v > hi {
        hi
    } else {
        v
    }
}

/// Basic facts about truncating division by a positive divisor: the quotient
/// has the sign of the dividend, and its magnitude is the largest multiple of
/// the divisor that fits under the dividend's magnitude.
pub proof fn lemma_tdiv_bounds(a: int, b: int)
    requires
        b > 0,
    ensures
        absi(tdiv(a, b)) * b <= absi(a),
        (absi(tdiv(a, b)) + 1) * b > absi(a),
        a >= 0 ==> tdiv(a, b) >= 0,
        a <= 0 ==> tdiv(a, b) <= 0,
        absi(tdiv(a, b)) <= absi(a),
{
    let m = absi(a);
    let q = m / b;
    lemma_fundamental_div_mod(m, b);
    lemma_mod_bound(m, b);
    assert(q * b <= m && (q + 1) * b > m && q >= 0) by (nonlinear_arith)
        requires
            b > 0,
            m >= 0,
            m == b * q + m % b,
            0 <= m % b < b,
    {
    }
    assert(q <= m) by (nonlinear_arith)
        requires
            b >= 1,
            q >= 0,
            q * b <= m,
    {
    }
    if a >= 0 {
        assert(tdiv(a, b) == q);
    } else {
        assert(tdiv(a, b) == -q);
    }
}

/// Truncating division by a positive divisor is monotone on non-negative
/// dividends.
pub proof fn lemma_tdiv_mono(a: int, b: int, c: int)
    requires
        0 <= a <= b,
        c > 0,
    ensures
        0 <= tdiv(a, c) <= tdiv(b, c),
{
    vstd::arithmetic::div_mod::lemma_div_is_ordered(a, b, c);
    vstd::arithmetic::div_mod::lemma_div_is_ordered(0, a, c);
    assert(0int / c == 0) by {
        lemma_fundamental_div_mod(0, c);
        lemma_mod_bound(0, c);
        assert(0int / c == 0) by (nonlinear_arith)
            requires
                c > 0,
                0 == c * (0int / c) + 0int % c,
                0 <= 0int % c < c,
        {
        }
    }
}

/// A square is never negative.
pub proof fn lemma_sq_nonneg(a: int)
    ensures
        a * a >= 0,
{
    assert(a * a >= 0) by (nonlinear_arith) {}
}

/// The magnitude of a product is the product of the magnitudes.
pub proof fn lemma_abs_mul(a: int, b: int)
    ensures
        absi(a * b) == absi(a) * absi(b),
{
    assert(absi(a * b) == absi(a) * absi(b)) by (nonlinear_arith) {}
}

/// Truncating division of two fixed-point scalars by a positive divisor.
pub fn div_trunc(a: i128, b: i128) -> (r: i128)
    requires
        b > 0,
    ensures
        r == tdiv(a as int, b as int),
{
    let r: i128 = a / b;
    r
}

/// Integer square root, defined by recursion so that every contract in this
/// crate can speak of one mathematical function.
pub open spec fn isqrt_spec(n: nat) -> nat
    decreases n,
{
    if n == 0 {
        0
    } else {
        let r = isqrt_spec((n - 1) as nat);
        if (r + 1) * (r + 1) <= n {
            r + 1
        } else {
            r
        }
    }
}

/// `isqrt_spec(n)` is the unique integer whose square is at most `n` while the
/// next square is beyond `n`.
pub proof fn lemma_isqrt_spec_bounds(n: nat)
    ensures
        isqrt_spec(n) * isqrt_spec(n) <= n,
        (isqrt_spec(n) + 1int) * (isqrt_spec(n) + 1int) > n,
    decreases n,
{
    if n == 0 {
        assert(isqrt_spec(0) == 0);
    } else {
        let p = isqrt_spec((n - 1) as nat);
        lemma_isqrt_spec_bounds((n - 1) as nat);
        if (p + 1) * (p + 1) <= n {
            assert(isqrt_spec(n) == p + 1);
            assert((p + 2) * (p + 2) > n) by (nonlinear_arith)
                requires
                    (p + 1) * (p + 1) > n - 1,
            {
            }
            assert((isqrt_spec(n) + 1) * (isqrt_spec(n) + 1) == (p + 2) * (p + 2))
                by (nonlinear_arith)
                requires
                    isqrt_spec(n) == p + 1,
            {
            }
            assert(isqrt_spec(n) * isqrt_spec(n) == (p + 1) * (p + 1)) by (nonlinear_arith)
                requires
                    isqrt_spec(n) == p + 1,
            {
            }
        } else {
            assert(isqrt_spec(n) == p);
        }
    }
}

/// Two integers squeezed between the same pair of consecutive squares are equal.
pub proof fn lemma_isqrt_unique(n: nat, r: nat)
    requires
        r * r <= n,
        (r + 1) * (r + 1) > n,
    ensures
        r == isqrt_spec(n),
{
    lemma_isqrt_spec_bounds(n);
    let s = isqrt_spec(n);
    assert(r == s) by (nonlinear_arith)
        requires
            r * r <= n,
            (r + 1) * (r + 1) > n,
            s * s <= n,
            (s + 1) * (s + 1) > n,
            r >= 0,
            s >= 0,
    {
    }
}

/// Integer square root of an unsigned 128-bit value, by bisection.
pub fn isqrt(n: u128) -> (r: u128)
    ensures
        r == isqrt_spec(n as nat),
        r * r <= n,
        (r + 1) * (r + 1) > n,
        r <= 0x1_0000_0000_0000_0000u128,
{
    let mut lo: u128 = 0;
    let mut hi: u128 = 0x1_0000_0000_0000_0000;
    proof {
        assert(hi * hi > n) by (nonlinear_arith)
            requires
                hi == 0x1_0000_0000_0000_0000u128,
                n <= u128::MAX,
        {
        }
    }
    while lo + 1 < hi
        invariant
            0 <= lo < hi <= 0x1_0000_0000_0000_0000u128,
            lo * lo <= n,
            hi * hi > n,
        decreases hi - lo,
    {
        let mid: u128 = lo + (hi - lo) / 2;
        assert(lo < mid < hi);
        proof {
            assert(mid * mid < u128::MAX) by (nonlinear_arith)
                requires
                    mid < 0x1_0000_0000_0000_0000u128,
            {
            }
        }
        if mid * mid <= n {
            lo = mid;
        } else {
            hi = mid;
        }
    }
    proof {
        assert((lo + 1) * (lo + 1) > n);
        lemma_isqrt_unique(n as nat, lo as nat);
    }
    lo
}

} // verus!
