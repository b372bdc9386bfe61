//! Angles and trigonometry in fixed point.
//!
//! An angle is a count of turn units: `TURN` units make a full revolution, so
//! a degree is exactly 4096 units and wrapping an angle into a half-open turn
//! is exact integer arithmetic. Sine uses a rational approximation that is
//! exact at 0, at a quarter turn and at a half turn and stays within
//! `[-ONE, ONE]`; the arctangent reduces to one octant and applies a rational
//! approximation that is exact on the axes.

use crate::fx;
use crate::fx::tdiv;
use vstd::prelude::*;

verus! {

/// Turn units in a full revolution; 4096 units to the degree.
pub const TURN: i128 = 1474560;

/// Half a revolution.
pub const HALF_TURN: i128 = 737280;

/// A quarter revolution.
pub const QUARTER_TURN: i128 = 368640;

/// An eighth of a revolution.
pub const EIGHTH_TURN: i128 = 184320;

/// Quadratic correction weight of the arctangent approximation.
pub const ATAN_BEND: i128 = 64068;

/// The representative of `a` in the half-open turn `(-HALF_TURN, HALF_TURN]`.
pub open spec fn wrap_units(a: int) -> int {
    HALF_TURN as int - (HALF_TURN as int - a) % (TURN as int)
}

/// `wrap_units` lands in the half-open turn and only ever moves an angle by
/// whole turns.
pub proof fn lemma_wrap_units(a: int)
    ensures
        -HALF_TURN < wrap_units(a) <= HALF_TURN,
        (a - wrap_units(a)) % (TURN as int) == 0,
{
    let m = (HALF_TURN as int - a) % (TURN as int);
    vstd::arithmetic::div_mod::lemma_mod_bound(HALF_TURN as int - a, TURN as int);
    vstd::arithmetic::div_mod::lemma_fundamental_div_mod(HALF_TURN as int - a, TURN as int);
    let q = (HALF_TURN as int - a) / (TURN as int);
    assert(a - wrap_units(a) == -(TURN as int) * q);
    vstd::arithmetic::div_mod::lemma_mod_multiples_basic(-q, TURN as int);
    assert((-(TURN as int) * q) == (-q) * (TURN as int)) by (nonlinear_arith);
}

/// Wrap an angle into `(-HALF_TURN, HALF_TURN]`.
pub fn wrap_angle(a: i128) -> (r: i128)
    requires
        -0x40000000000000000000000000000000 < a < 0x40000000000000000000000000000000,
    ensures
        r == wrap_units(a as int),
        -HALF_TURN < r <= HALF_TURN,
{
    proof {
        lemma_wrap_units(a as int);
    }
    HALF_TURN - fx::rem_floor(HALF_TURN - a, TURN)
}

/// Rational sine approximation on the first half turn, in `[0, ONE]`.
pub open spec fn sin_half_units(t: int) -> int {
    tdiv(
        16 * t * (HALF_TURN as int - t) * (fx::ONE as int),
        5 * (HALF_TURN as int) * (HALF_TURN as int) - 4 * t * (HALF_TURN as int - t),
    )
}

/// Sine of an angle in turn units, in raw fixed-point units.
pub open spec fn sin_units(a: int) -> int {
    let m = a % (TURN as int);
    if m <= HALF_TURN {
        sin_half_units(m)
    } else {
        -sin_half_units(m - HALF_TURN)
    }
}

/// Cosine of an angle in turn units: sine a quarter turn later.
pub open spec fn cos_units(a: int) -> int {
    sin_units(a + QUARTER_TURN)
}

/// The half-turn sine stays within `[0, ONE]` and its denominator is
/// positive.
pub proof fn lemma_sin_half_range(t: int)
    requires
        0 <= t <= HALF_TURN,
    ensures
        0 <= sin_half_units(t) <= fx::ONE,
{
    let h = HALF_TURN as int;
    let num = 16 * t * (h - t) * (fx::ONE as int);
    let den = 5 * h * h - 4 * t * (h - t);
    assert(num >= 0 && den >= 4 * h * h && num <= (fx::ONE as int) * den) by (nonlinear_arith)
        requires
            0 <= t <= h,
            h == HALF_TURN as int,
            num == 16 * t * (h - t) * (fx::ONE as int),
            den == 5 * h * h - 4 * t * (h - t),
    ;
    fx::lemma_tdiv_bound(num, den, fx::ONE as int);
}

/// Sine in fixed point.
pub fn sin_fx(a: i128) -> (r: i128)
    ensures
        r == sin_units(a as int),
        -fx::ONE <= r <= fx::ONE,
{
    let m = fx::rem_floor(a, TURN);
    proof {
        vstd::arithmetic::div_mod::lemma_mod_bound(a as int, TURN as int);
    }
    if m <= HALF_TURN {
        sin_half(m)
    } else {
        -sin_half(m - HALF_TURN)
    }
}

/// Cosine in fixed point.
pub fn cos_fx(a: i128) -> (r: i128)
    requires
        a < 0x40000000000000000000000000000000,
    ensures
        r == cos_units(a as int),
        -fx::ONE <= r <= fx::ONE,
{
    sin_fx(a + QUARTER_TURN)
}

/// Sine on the first half turn.
fn sin_half(t: i128) -> (r: i128)
    requires
        0 <= t <= HALF_TURN,
    ensures
        r == sin_half_units(t as int),
        0 <= r <= fx::ONE,
{
    proof {
        lemma_sin_half_range(t as int);
        let h = HALF_TURN as int;
        assert(0 <= (t as int) * (h - t) <= h * h && 4 * h * h <= 5 * h * h - 4 * (t as int) * (h
            - t)) by (nonlinear_arith)
            requires
                0 <= t as int <= h,
                h == HALF_TURN as int,
        ;
    }
    let arch = t * (HALF_TURN - t);
    proof {
        let h = HALF_TURN as int;
        assert(16 * (arch as int) * (fx::ONE as int) == 16 * (t as int) * (h - t as int) * (
        fx::ONE as int) && 4 * (arch as int) == 4 * (t as int) * (h - t as int))
            by (nonlinear_arith)
            requires
                arch as int == (t as int) * (h - t as int),
        ;
    }
    fx::div_trunc(16 * arch * fx::ONE, 5 * HALF_TURN * HALF_TURN - 4 * arch)
}

/// Rational arctangent approximation on `[0, ONE]`, in turn units.
pub open spec fn atan01_units(z: int) -> int {
    tdiv(EIGHTH_TURN as int * z, fx::ONE as int) + tdiv(
        ATAN_BEND as int * z * (fx::ONE as int - z),
        (fx::ONE as int) * (fx::ONE as int),
    )
}

/// The one-octant arctangent stays within `[0, QUARTER_TURN]`.
pub proof fn lemma_atan01_range(z: int)
    requires
        0 <= z <= fx::ONE,
    ensures
        0 <= atan01_units(z) <= QUARTER_TURN,
{
    let one = fx::ONE as int;
    assert(0 <= EIGHTH_TURN as int * z <= EIGHTH_TURN as int * one && 0 <= ATAN_BEND as int * z * (
    one - z) <= ATAN_BEND as int * one * one) by (nonlinear_arith)
        requires
            0 <= z <= one,
            one == fx::ONE as int,
    ;
    fx::lemma_tdiv_bound(EIGHTH_TURN as int * z, one, EIGHTH_TURN as int);
    fx::lemma_tdiv_bound(ATAN_BEND as int * z * (one - z), one * one, ATAN_BEND as int);
}

/// Raw octant-reduced arctangent of `y / x`, before wrapping.
pub open spec fn atan2_raw_units(y: int, x: int) -> int {
    let ax = if x >= 0 { x } else { -x };
    let ay = if y >= 0 { y } else { -y };
    if ax == 0 && ay == 0 {
        0
    } else {
        let t = if ax >= ay {
            atan01_units(tdiv(ay * (fx::ONE as int), ax))
        } else {
            QUARTER_TURN as int - atan01_units(tdiv(ax * (fx::ONE as int), ay))
        };
        if x >= 0 && y >= 0 {
            t
        } else if x < 0 && y >= 0 {
            HALF_TURN as int - t
        } else if x < 0 {
            t - HALF_TURN as int
        } else {
            -t
        }
    }
}

/// Angle of the point `(x, y)` from the positive x axis, wrapped into
/// `(-HALF_TURN, HALF_TURN]`.
pub open spec fn atan2_units(y: int, x: int) -> int {
    wrap_units(atan2_raw_units(y, x))
}

/// Fixed-point two-argument arctangent.
pub fn atan2_fx(y: i128, x: i128) -> (r: i128)
    requires
        -0x4000000000000000 <= y <= 0x4000000000000000,
        -0x4000000000000000 <= x <= 0x4000000000000000,
    ensures
        r == atan2_units(y as int, x as int),
        -HALF_TURN < r <= HALF_TURN,
{
    let ax = if x >= 0 { x } else { -x };
    let ay = if y >= 0 { y } else { -y };
    let raw: i128;
    if ax == 0 && ay == 0 {
        raw = 0;
    } else {
        let t: i128;
        if ax >= ay {
            let z = fx::div_trunc(ay * fx::ONE, ax);
            proof {
                fx::lemma_tdiv_bound(ay as int * (fx::ONE as int), ax as int, fx::ONE as int);
                assert(ay as int * (fx::ONE as int) <= (fx::ONE as int) * (ax as int))
                    by (nonlinear_arith)
                    requires
                        0 <= ay as int <= ax as int,
                ;
                lemma_atan01_range(tdiv(ay as int * (fx::ONE as int), ax as int));
            }
            t = atan01(z);
        } else {
            let z = fx::div_trunc(ax * fx::ONE, ay);
            proof {
                fx::lemma_tdiv_bound(ax as int * (fx::ONE as int), ay as int, fx::ONE as int);
                assert(ax as int * (fx::ONE as int) <= (fx::ONE as int) * (ay as int))
                    by (nonlinear_arith)
                    requires
                        0 <= ax as int <= ay as int,
                ;
                lemma_atan01_range(tdiv(ax as int * (fx::ONE as int), ay as int));
            }
            t = QUARTER_TURN - atan01(z);
        }
        if x >= 0 && y >= 0 {
            raw = t;
        } else if x < 0 && y >= 0 {
            raw = HALF_TURN - t;
        } else if x < 0 {
            raw = t - HALF_TURN;
        } else {
            raw = -t;
        }
    }
    wrap_angle(raw)
}

/// One-octant arctangent.
fn atan01(z: i128) -> (r: i128)
    requires
        0 <= z <= fx::ONE,
    ensures
        r == atan01_units(z as int),
        0 <= r <= QUARTER_TURN,
{
    proof {
        lemma_atan01_range(z as int);
    }
    let linear = fx::div_trunc(EIGHTH_TURN * z, fx::ONE);
    let bend = fx::div_trunc(ATAN_BEND * z * (fx::ONE - z), fx::ONE * fx::ONE);
    linear + bend
}

} // verus!
