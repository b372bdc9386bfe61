//! Signed fixed-point scalars.
//!
//! A scalar is an `i128` counting raw units; `ONE` raw units make one world
//! unit. Division is truncating (toward zero), matching Rust's `/`, and every
//! contract speaks of the rounded result exactly through [`tdiv`] and
//! [`sdiv`].

use vstd::prelude::*;

verus! {

/// Raw units per world unit.
pub const ONE: i128 = 65536;

/// Largest coordinate magnitude the scene admits, in raw units.
pub const COORD_LIMIT: i128 = 274877906944;

/// Truncating (toward zero) division for a positive divisor, the meaning of
/// `/` on machine integers.
pub open spec fn tdiv(a: int, b: int) -> int {
    if a >= 0 {
        a / b
    } else {
        -((-a) / b)
    }
}

/// Truncating division with a signed divisor.
pub open spec fn sdiv(a: int, b: int) -> int {
    if b >= 0 {
        tdiv(a, b)
    } else {
        -tdiv(a, -b)
    }
}

/// `a * b` scaled back down to raw units.
pub open spec fn fxmul(a: int, b: int) -> int {
    tdiv(a * b, ONE as int)
}

/// `a / b` carried out in raw units.
pub open spec fn fxdiv(a: int, b: int) -> int {
    sdiv(a * (ONE as int), b)
}

/// Floor of the square root of `x`, and 0 below 1.
pub open spec fn sqrt_floor(x: int) -> int
    decreases x,
{
    if x < 1 {
        0
    } else {
        let r = sqrt_floor(x - 1);
        if (r + 1) * (r + 1) <= x {
            r + 1
        } else {
            r
        }
    }
}

/// `sqrt_floor` is the floor square root: it is nonnegative, its square is at
/// most `x`, and the next square is beyond `x`.
pub proof fn lemma_sqrt_floor_bounds(x: int)
    requires
        x >= 0,
    ensures
        0 <= sqrt_floor(x),
        sqrt_floor(x) * sqrt_floor(x) <= x,
        x < (sqrt_floor(x) + 1) * (sqrt_floor(x) + 1),
    decreases x,
{
    if x >= 1 {
        lemma_sqrt_floor_bounds(x - 1);
        let r = sqrt_floor(x - 1);
        if (r + 1) * (r + 1) <= x {
            assert((r + 2) * (r + 2) > (r + 1) * (r + 1)) by (nonlinear_arith)
                requires
                    r >= 0,
            ;
        }
    }
}

/// Any `r` within the floor-square-root bounds is `sqrt_floor(x)`.
pub proof fn lemma_sqrt_floor_unique(x: int, r: int)
    requires
        0 <= r,
        r * r <= x,
        x < (r + 1) * (r + 1),
    ensures
        r == sqrt_floor(x),
{
    lemma_sqrt_floor_bounds(x);
    let s = sqrt_floor(x);
    if r < s {
        assert((r + 1) * (r + 1) <= s * s) by (nonlinear_arith)
            requires
                0 <= r,
                r < s,
        ;
    }
    if s < r {
        assert((s + 1) * (s + 1) <= r * r) by (nonlinear_arith)
            requires
                0 <= s,
                s < r,
        ;
    }
}

/// Truncating division keeps the dividend's sign and never grows past it:
/// `tdiv(a, b) * b` stays between 0 and `a`.
pub proof fn lemma_tdiv_abs_le(a: int, b: int)
    requires
        b >= 1,
    ensures
        a >= 0 ==> 0 <= tdiv(a, b) * b <= a,
        a < 0 ==> a <= tdiv(a, b) * b <= 0,
        a >= 0 ==> tdiv(a, b) >= 0,
        a < 0 ==> tdiv(a, b) <= 0,
{
    if a >= 0 {
        vstd::arithmetic::div_mod::lemma_fundamental_div_mod(a, b);
        vstd::arithmetic::div_mod::lemma_div_pos_is_pos(a, b);
        assert(tdiv(a, b) * b == a - a % b) by (nonlinear_arith)
            requires
                b >= 1,
                a >= 0,
                a == b * (a / b) + a % b,
                tdiv(a, b) == a / b,
        ;
    } else {
        vstd::arithmetic::div_mod::lemma_fundamental_div_mod(-a, b);
        vstd::arithmetic::div_mod::lemma_div_pos_is_pos(-a, b);
        assert(tdiv(a, b) * b == a + (-a) % b) by (nonlinear_arith)
            requires
                b >= 1,
                a < 0,
                -a == b * ((-a) / b) + (-a) % b,
                tdiv(a, b) == -((-a) / b),
        ;
    }
}

/// A quotient bounded through its numerator: if `|a| <= c * b` then
/// `|tdiv(a, b)| <= c`.
pub proof fn lemma_tdiv_bound(a: int, b: int, c: int)
    requires
        b >= 1,
        c >= 0,
        -(c * b) <= a <= c * b,
    ensures
        -c <= tdiv(a, b) <= c,
{
    lemma_tdiv_abs_le(a, b);
    vstd::arithmetic::div_mod::lemma_div_multiples_vanish(c, b);
    assert(c * b == b * c) by (nonlinear_arith);
    if a >= 0 {
        vstd::arithmetic::div_mod::lemma_div_is_ordered(a, b * c, b);
    } else {
        vstd::arithmetic::div_mod::lemma_div_is_ordered(-a, b * c, b);
    }
}

/// Dividing a component by the norm of a sum of squares that dominates it
/// keeps the quotient within two world units.
pub proof fn lemma_div_by_norm_bound(c: int, s: int, n: int)
    requires
        s >= c * c,
        s >= 0,
        n == sqrt_floor(tdiv(s, ONE as int) * (ONE as int)),
        n >= 1,
    ensures
        -(2 * ONE as int) <= fxdiv(c, n) <= 2 * ONE,
{
    let one = ONE as int;
    let d = tdiv(s, one);
    vstd::arithmetic::div_mod::lemma_fundamental_div_mod(s, one);
    vstd::arithmetic::div_mod::lemma_mod_bound(s, one);
    assert(d * one >= s - one + 1) by (nonlinear_arith)
        requires
            d == s / one,
            s == one * (s / one) + s % one,
            s % one < one,
            one > 0,
    ;
    lemma_tdiv_abs_le(s, one);
    lemma_sqrt_floor_bounds(d * one);
    assert((n + 1) * (n + 1) == n * n + 2 * n + 1) by (nonlinear_arith);
    assert(c * c <= n * n + 2 * n + one);
    // The smallest nonzero radicand is a whole square of `ONE`, so a nonzero
    // norm is at least 256.
    assert(d >= 1) by {
        if d < 1 {
            assert(d * one <= 0) by (nonlinear_arith)
                requires
                    d <= 0,
                    one > 0,
            ;
        }
    }
    assert(d * one >= 256 * 256) by (nonlinear_arith)
        requires
            d >= 1,
            one == ONE as int,
    ;
    assert(n >= 256) by (nonlinear_arith)
        requires
            (n + 1) * (n + 1) > 256 * 256,
            n >= 0,
    ;
    assert(-(2 * n) <= c <= 2 * n) by (nonlinear_arith)
        requires
            n >= 256,
            one == ONE as int,
            c * c <= n * n + 2 * n + one,
    ;
    assert(-(2 * one * n) <= c * one <= 2 * one * n) by (nonlinear_arith)
        requires
            -(2 * n) <= c <= 2 * n,
            one > 0,
    ;
    lemma_tdiv_bound(c * one, n, 2 * one);
}

/// Fixed-point floor square root: the root of `v` in raw units.
pub open spec fn sqrtfx(v: int) -> int {
    sqrt_floor(v * (ONE as int))
}

/// Fixed-point square root on machine integers.
pub fn sqrt_fx(v: i128) -> (r: i128)
    requires
        0 <= v <= 0x400000000000000000000000000,
    ensures
        r == sqrtfx(v as int),
        r >= 0,
{
    isqrt(v * ONE)
}

/// Truncating division on machine integers.
pub fn div_trunc(a: i128, b: i128) -> (q: i128)
    requires
        b > 0,
    ensures
        q == tdiv(a as int, b as int),
{
    a.checked_div(b).unwrap()
}

/// Truncating division with a signed, nonzero divisor.
pub fn div_signed(a: i128, b: i128) -> (q: i128)
    requires
        b != 0,
        a != i128::MIN,
    ensures
        q == sdiv(a as int, b as int),
{
    a.checked_div(b).unwrap()
}

/// Euclidean remainder: the representative of `a` modulo `m` in `[0, m)`.
pub fn rem_floor(a: i128, m: i128) -> (r: i128)
    requires
        m > 0,
    ensures
        r == a as int % m as int,
{
    a.checked_rem_euclid(m).unwrap()
}

/// Fixed-point product `a * b / ONE`.
pub fn mul_fx(a: i128, b: i128) -> (q: i128)
    requires
        -0x4000000000000000 <= a <= 0x4000000000000000,
        -0x4000000000000000 <= b <= 0x4000000000000000,
    ensures
        q == fxmul(a as int, b as int),
{
    proof {
        assert(-0x10000000000000000000000000000000 <= (a as int) * (b as int)
            <= 0x10000000000000000000000000000000) by (nonlinear_arith)
            requires
                -0x4000000000000000 <= a as int <= 0x4000000000000000,
                -0x4000000000000000 <= b as int <= 0x4000000000000000,
        ;
    }
    div_trunc(a * b, ONE)
}

/// Fixed-point quotient `a * ONE / b`.
pub fn div_fx(a: i128, b: i128) -> (q: i128)
    requires
        b != 0,
        -0x400000000000000000000000000 <= a <= 0x400000000000000000000000000,
    ensures
        q == fxdiv(a as int, b as int),
{
    div_signed(a * ONE, b)
}

/// Floor square root on machine integers, by bisection.
pub fn isqrt(x: i128) -> (r: i128)
    requires
        x >= 0,
    ensures
        r == sqrt_floor(x as int),
        r >= 0,
        r * r <= x,
{
    let mut lo: i128 = 0;
    let mut hi: i128 = 0x10000000000000000;
    proof {
        assert((hi as int + 1) * (hi as int + 1) > x as int) by (nonlinear_arith)
            requires
                hi == 0x10000000000000000int,
                x <= i128::MAX,
        ;
    }
    while lo < hi
        invariant
            0 <= lo <= hi <= 0x10000000000000000,
            lo * lo <= x,
            (hi as int + 1) * (hi as int + 1) > x as int,
        decreases hi - lo,
    {
        let mid = lo + (hi - lo + 1) / 2;
        proof {
            assert(lo < mid <= hi);
            assert(mid * mid <= 0x10000000000000000 * 0x10000000000000000) by (nonlinear_arith)
                requires
                    0 < mid <= 0x10000000000000000int,
            ;
        }
        if mid <= x / mid {
            proof {
                assert(mid * mid <= x) by (nonlinear_arith)
                    requires
                        mid > 0,
                        mid as int <= x as int / mid as int,
                        x >= 0,
                ;
            }
            lo = mid;
        } else {
            proof {
                assert(x < mid * mid) by (nonlinear_arith)
                    requires
                        mid > 0,
                        mid as int > x as int / mid as int,
                        x >= 0,
                ;
            }
            hi = mid - 1;
        }
    }
    proof {
        lemma_sqrt_floor_unique(x as int, lo as int);
    }
    lo
}

/// Clamp `v` into `[lo, hi]`.
pub fn clamp(v: i128, lo: i128, hi: i128) -> (r: i128)
    requires
        lo <= hi,
    ensures
        r == if v < lo {
            lo
        } else if v > hi {
            hi
        } else {
            v
        },
{
    if v < lo {
        lo
    } else if v > hi {
        hi
    } else {
        v
    }
}

} // verus!
