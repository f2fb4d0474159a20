//! Fixed-point helpers: all world quantities are `i64` values counted in
//! milli-units (one thousandth of a pixel, radian, or speed unit).
//!
//! Spec-mode `/` and `%` are Euclidean, which for a positive divisor is floor
//! division; the executable helpers here implement exactly that over `i64`,
//! so the executable code and its specification agree digit for digit.

use vstd::prelude::*;

verus! {

use vstd::arithmetic::div_mod::lemma_fundamental_div_mod;
use vstd::arithmetic::div_mod::lemma_fundamental_div_mod_converse_div;

/// Number of fixed-point sub-units in one world unit (pixel, radian, ...).
pub const MILLI: i64 = 1000;

/// Magnitude cap on every field of the simulation state. Each tick clamps
/// what it writes into this range, so one more tick can never overflow an
/// `i64`. The cap is far beyond anything normal play reaches.
pub const BOUND: i64 = 0x100_0000_0000;

/// Largest argument the division helpers accept; comfortably above anything
/// a single tick can compute from `BOUND`-clamped state.
pub const DIV_RANGE: i64 = 0x1000_0000_0000_0000;

/// Clamp `v` into `[lo, hi]`.
pub open spec fn spec_clamp(v: int, lo: int, hi: int) -> int {
    if v < lo {
        lo
    } else if v > hi {
        hi
    } else {
        v
    }
}

/// Executable clamp of `v` into `[lo, hi]`.
pub fn clamp(v: i64, lo: i64, hi: i64) -> (r: i64)
    requires
        lo <= hi,
    ensures
        r == spec_clamp(v as int, lo as int, hi as int),
{
    if v < lo {
        lo
    } else if v > hi {
        hi
    } else {
        v
    }
}

/// Floor division of `a` by a positive divisor `d`: the executable form of
/// spec-mode `a / d`.
pub fn div_fl(a: i64, d: i64) -> (r: i64)
    requires
        1 <= d <= 0x1_0000_0000,
        -DIV_RANGE <= a <= DIV_RANGE,
    ensures
        r == a as int / d as int,
{
    if a >= 0 {
        let q: u64 = (a as u64) / (d as u64);
        q as i64
    } else {
        // floor(a / d) == -((-a + d - 1) / d) for a < 0, d > 0
        let k: u64 = (-a) as u64;
        let q: u64 = (k + (d as u64) - 1) / (d as u64);
        let qi: i64 = q as i64;
        proof {
            let ai = a as int;
            let di = d as int;
            let ki = -ai;
            lemma_fundamental_div_mod(ki + di - 1, di);
            let rr = (ki + di - 1) % di;
            assert(ki + di - 1 == di * ((ki + di - 1) / di) + rr);
            assert(qi == (ki + di - 1) / di);
            assert(di * qi >= ki) by {
                assert(di * qi == ki + di - 1 - rr);
            }
            assert(di * qi < ki + di) by {
                assert(di * qi == ki + di - 1 - rr);
            }
            assert((-qi) * di + (di * qi - ki) == -ki) by (nonlinear_arith);
            assert(ai == (-qi) * di + (di * qi - ki));
            lemma_fundamental_div_mod_converse_div(ai, di, -qi, di * qi - ki);
        }
        -qi
    }
}

/// Euclidean remainder of `a` modulo a positive `m`: the executable form of
/// spec-mode `a % m`, always in `[0, m)`.
pub fn euc_mod(a: i64, m: i64) -> (r: i64)
    requires
        1 <= m <= 0x1_0000_0000,
        -DIV_RANGE <= a <= DIV_RANGE,
    ensures
        r == a as int % m as int,
        0 <= r < m,
{
    let q = div_fl(a, m);
    proof {
        lemma_fundamental_div_mod(a as int, m as int);
    }
    a - q * m
}

} // verus!
