//! Fixed-point trigonometry in milli-radians (one unit is 0.001 rad).
//!
//! The terrain is smoothed with a cosine ease curve and the rider's target
//! angle is the arctangent of the ground slope ahead. Both are computed with
//! short integer polynomials; the spec functions below state the exact value
//! of each, digit for digit, and the executable code is proved to match.

use vstd::prelude::*;

verus! {

use crate::fixed::BOUND;
use crate::fixed::clamp;
use crate::fixed::div_fl;
use crate::fixed::euc_mod;
use crate::fixed::spec_clamp;

/// One half turn (pi) in milli-radians, rounded up.
pub const PI_MILLI: i64 = 3142;

/// A quarter turn (pi / 2) in milli-radians.
pub const HALF_PI_MILLI: i64 = 1571;

/// A full turn (2 * pi) in milli-radians.
pub const TWO_PI_MILLI: i64 = 6284;

/// Cosine on the first half of the half turn, `th` in `[0, HALF_PI_MILLI]`,
/// by the Taylor polynomial `1 - th^2/2 + th^4/24 - th^6/720`, evaluated in
/// milli-units and clamped into the cosine's range.
pub open spec fn spec_cos_quarter(th: int) -> int {
    let t2 = th * th / 1000;
    let t4 = t2 * t2 / 1000;
    let t6 = t4 * t2 / 1000;
    spec_clamp(1000 - t2 / 2 + t4 / 24 - t6 / 720, -1000, 1000)
}

/// Cosine of `th` milli-radians for `th` in `[0, PI_MILLI]`, folding the
/// second quarter turn onto the first by `cos(pi - x) == -cos(x)`.
pub open spec fn spec_cos_milli(th: int) -> int {
    if th <= HALF_PI_MILLI {
        spec_cos_quarter(th)
    } else {
        -spec_cos_quarter(PI_MILLI - th)
    }
}

fn cos_quarter(th: i64) -> (r: i64)
    requires
        0 <= th <= HALF_PI_MILLI,
    ensures
        r == spec_cos_quarter(th as int),
        -1000 <= r <= 1000,
{
    proof {
        assert(th * th <= 1571 * 1571) by (nonlinear_arith)
            requires 0 <= th <= 1571;
    }
    let t2 = div_fl(th * th, 1000);
    proof {
        assert(t2 * t2 <= 2469 * 2469) by (nonlinear_arith)
            requires 0 <= t2 <= 2469;
    }
    let t4 = div_fl(t2 * t2, 1000);
    proof {
        assert(t4 * t2 <= 6096 * 2469) by (nonlinear_arith)
            requires 0 <= t4 <= 6096 && 0 <= t2 <= 2469;
    }
    let t6 = div_fl(t4 * t2, 1000);
    clamp(1000 - div_fl(t2, 2) + div_fl(t4, 24) - div_fl(t6, 720), -1000, 1000)
}

/// Cosine of `th` milli-radians, exact executable form of `spec_cos_milli`.
pub fn cos_milli(th: i64) -> (r: i64)
    requires
        0 <= th <= PI_MILLI,
    ensures
        r == spec_cos_milli(th as int),
        -1000 <= r <= 1000,
{
    if th <= HALF_PI_MILLI {
        cos_quarter(th)
    } else {
        -cos_quarter(PI_MILLI - th)
    }
}

/// The cosine ease weight `(1 - cos(f * pi)) / 2` for a fraction `f` given
/// in milli-units; `0` at `f == 0`, `1000` at `f == 1000`.
pub open spec fn spec_ease(f: int) -> int {
    (1000 - spec_cos_milli(f * PI_MILLI / 1000)) / 2
}

fn ease(f: i64) -> (r: i64)
    requires
        0 <= f <= 1000,
    ensures
        r == spec_ease(f as int),
        0 <= r <= 1000,
{
    let th = div_fl(f * PI_MILLI, 1000);
    let c = cos_milli(th);
    div_fl(1000 - c, 2)
}

/// Cosine-smoothed interpolation from `a` to `b` by the fraction `f` (in
/// milli-units): `a + (b - a) * (1 - cos(f * pi)) / 2`. An ease-in/ease-out
/// curve rather than a linear blend, so interpolated terrain is rounded.
pub open spec fn spec_cos_lerp(a: int, b: int, f: int) -> int {
    a + (b - a) * spec_ease(f) / 1000
}

/// The ease weight is itself a fraction: it never leaves `[0, 1000]`.
pub proof fn lemma_ease_range(f: int)
    ensures
        0 <= spec_ease(f) <= 1000,
{
}

/// The interpolated value never leaves the closed interval between its two
/// endpoints.
pub proof fn lemma_cos_lerp_range(a: int, b: int, f: int)
    ensures
        a <= b ==> a <= spec_cos_lerp(a, b, f) <= b,
        b <= a ==> b <= spec_cos_lerp(a, b, f) <= a,
{
    lemma_ease_range(f);
    let w = spec_ease(f);
    let d = b - a;
    if d >= 0 {
        assert(0 <= d * w <= d * 1000) by (nonlinear_arith)
            requires 0 <= w <= 1000 && d >= 0;
        assert(d * 1000 / 1000 == d);
        assert(0 <= d * w / 1000 <= d);
    } else {
        assert(d * 1000 <= d * w <= 0) by (nonlinear_arith)
            requires 0 <= w <= 1000 && d < 0;
        assert(d * 1000 / 1000 == d);
        assert(d <= d * w / 1000 <= 0);
    }
}

/// Executable form of `spec_cos_lerp`; the result never leaves the closed
/// interval between `a` and `b`.
pub fn cos_lerp(a: i64, b: i64, f: i64) -> (r: i64)
    requires
        -BOUND <= a <= BOUND,
        -BOUND <= b <= BOUND,
        0 <= f <= 1000,
    ensures
        r == spec_cos_lerp(a as int, b as int, f as int),
        a <= b ==> a <= r <= b,
        b <= a ==> b <= r <= a,
{
    proof {
        lemma_cos_lerp_range(a as int, b as int, f as int);
    }
    let w = ease(f);
    let d = b - a;
    proof {
        if d >= 0 {
            assert(0 <= d * w <= d * 1000) by (nonlinear_arith)
                requires 0 <= w <= 1000 && d >= 0;
        } else {
            assert(d * 1000 <= d * w <= 0) by (nonlinear_arith)
                requires 0 <= w <= 1000 && d < 0;
        }
    }
    a + div_fl(d * w, 1000)
}

/// Arctangent of `z / 1000` for `z` in `[0, 1000]`, in milli-radians, by the
/// approximation `atan(z) = z * pi/4 + 0.273 * z * (1 - z)`, clamped into a
/// quarter turn.
pub open spec fn spec_atan_unit(z: int) -> int {
    spec_clamp(z * 785 / 1000 + 273 * z * (1000 - z) / 1000000, 0, HALF_PI_MILLI as int)
}

fn atan_unit(z: i64) -> (r: i64)
    requires
        0 <= z <= 1000,
    ensures
        r == spec_atan_unit(z as int),
        0 <= r <= HALF_PI_MILLI,
{
    proof {
        assert(0 <= 273 * z * (1000 - z) <= 273000000) by (nonlinear_arith)
            requires 0 <= z <= 1000;
    }
    clamp(div_fl(z * 785, 1000) + div_fl(273 * z * (1000 - z), 1000000), 0, HALF_PI_MILLI)
}

/// Angle of a line that rises `dy` milli-pixels over a run of 5 pixels, for
/// `dy >= 0`: `atan(dy / 5000)` in milli-radians. Slopes steeper than
/// 1000 : 1 count as a full quarter turn.
pub open spec fn spec_slope_pos(dy: int) -> int {
    if dy <= 5000 {
        spec_atan_unit(dy / 5)
    } else if dy > 5000000 {
        HALF_PI_MILLI as int
    } else {
        HALF_PI_MILLI - spec_atan_unit(5000000int / dy)
    }
}

/// Signed slope angle: `atan2(dy, 5000)` in milli-radians, odd in `dy`,
/// always within a quarter turn of level.
pub open spec fn spec_slope_angle(dy: int) -> int {
    if dy >= 0 {
        spec_slope_pos(dy)
    } else {
        -spec_slope_pos(-dy)
    }
}

/// The slope angle is always within a quarter turn of level.
pub proof fn lemma_slope_angle_range(dy: int)
    ensures
        -HALF_PI_MILLI <= spec_slope_angle(dy) <= HALF_PI_MILLI,
{
}

fn slope_pos(dy: i64) -> (r: i64)
    requires
        0 <= dy <= 0x400_0000_0000,
    ensures
        r == spec_slope_pos(dy as int),
        0 <= r <= HALF_PI_MILLI,
{
    if dy <= 5000 {
        atan_unit(div_fl(dy, 5))
    } else if dy > 5000000 {
        HALF_PI_MILLI
    } else {
        let z = div_fl(5000000, dy);
        proof {
            vstd::arithmetic::div_mod::lemma_div_is_ordered_by_denominator(5000000, 5001, dy as int);
        }
        HALF_PI_MILLI - atan_unit(z)
    }
}

/// Executable form of `spec_slope_angle`.
pub fn slope_angle(dy: i64) -> (r: i64)
    requires
        -0x400_0000_0000 <= dy <= 0x400_0000_0000,
    ensures
        r == spec_slope_angle(dy as int),
        -HALF_PI_MILLI <= r <= HALF_PI_MILLI,
{
    if dy >= 0 {
        slope_pos(dy)
    } else {
        -slope_pos(-dy)
    }
}

/// Wrap an angle into `[-PI_MILLI, PI_MILLI)`: crossing pi comes back in at
/// minus pi, so a continuous spin keeps its direction.
pub open spec fn spec_wrap_pi(v: int) -> int {
    (v + PI_MILLI) % (TWO_PI_MILLI as int) - PI_MILLI
}

/// A wrapped angle lies in `[-PI_MILLI, PI_MILLI)`.
pub proof fn lemma_wrap_pi_range(v: int)
    ensures
        -PI_MILLI <= spec_wrap_pi(v) < PI_MILLI,
{
    vstd::arithmetic::div_mod::lemma_mod_division_less_than_divisor(
        v + PI_MILLI,
        TWO_PI_MILLI as int,
    );
}

/// Executable form of `spec_wrap_pi`.
pub fn wrap_pi(v: i64) -> (r: i64)
    requires
        -0x100_0000_0000_0000 <= v <= 0x100_0000_0000_0000,
    ensures
        r == spec_wrap_pi(v as int),
        -PI_MILLI <= r < PI_MILLI,
{
    euc_mod(v + PI_MILLI, TWO_PI_MILLI) - PI_MILLI
}

/// Milli-degrees from milli-radians: `rad * 180 / pi`, with `180 / pi` taken
/// as `57.296`.
pub open spec fn spec_rad2deg(rad: int) -> int {
    rad * 57296 / 1000
}

/// Executable form of `spec_rad2deg`; rendering uses it to hand the rider's
/// rotation to a drawing call that wants degrees.
pub fn rad2deg(rad: i64) -> (r: i64)
    requires
        -0x400_0000_0000 <= rad <= 0x400_0000_0000,
    ensures
        r == spec_rad2deg(rad as int),
{
    div_fl(rad * 57296, 1000)
}

} // verus!
