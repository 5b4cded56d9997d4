//! Fixed-point cosine and sine on milli-radian angles.
//!
//! An angle is an `i64` count of thousandths of a radian; results are
//! thousandths of a unit, always within `[-1000, 1000]`. The kernel is the
//! classical rational approximation `cos x ~ (pi^2 - 4 x^2) / (pi^2 + x^2)`
//! on `[-pi/2, pi/2]`, extended to the full circle by quadrant symmetry.

use vstd::prelude::*;
use vstd::arithmetic::div_mod::lemma_fundamental_div_mod;
use vstd::arithmetic::div_mod::lemma_fundamental_div_mod_converse_mod;

verus! {

/// `r` brought into `[0, 6283)` by whole turns.
pub open spec fn reduce_spec(r: int) -> int {
    r % 6283
}

/// The approximation kernel on a quarter-turn-wide window around zero:
/// `1000 * (pi^2 - 4 t^2) / (pi^2 + t^2)` with `pi^2` in micro-units,
/// rounded toward zero.
pub open spec fn kernel_spec(t: int) -> int {
    let num = 9_869_604 - 4 * (t * t);
    let den = 9_869_604 + (t * t);
    if num >= 0 {
        (1000 * num) / den
    } else {
        -((1000 * (-num)) / den)
    }
}

/// Fixed-point cosine of a milli-radian angle.
pub open spec fn cos_spec(r: int) -> int {
    let x = reduce_spec(r);
    if x <= 1571 {
        kernel_spec(x)
    } else if x <= 4712 {
        -kernel_spec(x - 3142)
    } else {
        kernel_spec(6283 - x)
    }
}

/// Fixed-point sine of a milli-radian angle: cosine shifted a quarter turn.
pub open spec fn sin_spec(r: int) -> int {
    cos_spec(r - 1571)
}

proof fn lemma_kernel_bounds(t: int)
    requires
        -2500 <= t <= 2500,
    ensures
        -1000 <= kernel_spec(t) <= 1000,
{
    let num = 9_869_604 - 4 * (t * t);
    let den = 9_869_604 + (t * t);
    assert(0 <= t * t <= 6_250_000) by (nonlinear_arith)
        requires
            -2500 <= t <= 2500,
    ;
    if num >= 0 {
        assert(0 <= (1000 * num) / den <= 1000) by (nonlinear_arith)
            requires
                0 <= num <= den,
                den >= 1,
        ;
    } else {
        assert(0 <= (1000 * (-num)) / den <= 1000) by (nonlinear_arith)
            requires
                0 <= -num <= den,
                den >= 1,
        ;
    }
}

/// Reduce a milli-radian angle into `[0, 6283)` by whole turns.
fn reduce(r: i64) -> (x: i64)
    requires
        -4_000_000_000_000_000_000 <= r <= 4_000_000_000_000_000_000,
    ensures
        x == reduce_spec(r as int),
        0 <= x < 6283,
{
    if r >= 0 {
        ((r as u64) % 6283) as i64
    } else {
        let m = (((-r) as u64) % 6283) as i64;
        proof {
            let k = -(r as int);
            lemma_fundamental_div_mod(k, 6283);
            if k % 6283 == 0 {
                lemma_fundamental_div_mod_converse_mod(r as int, 6283, -(k / 6283), 0);
            } else {
                lemma_fundamental_div_mod_converse_mod(r as int, 6283, -(k / 6283) - 1, 6283 - k % 6283);
            }
        }
        if m == 0 {
            0
        } else {
            6283 - m
        }
    }
}

fn kernel(t: i64) -> (c: i64)
    requires
        -1571 <= t <= 1571,
    ensures
        c == kernel_spec(t as int),
        -1000 <= c <= 1000,
{
    proof {
        assert(0 <= t * t <= 2_468_041) by (nonlinear_arith)
            requires
                -1571 <= t <= 1571,
        ;
        lemma_kernel_bounds(t as int);
    }
    let tt: i64 = t * t;
    let num: i64 = 9_869_604 - 4 * tt;
    let den: i64 = 9_869_604 + tt;
    if num >= 0 {
        proof {
            assert((1000 * (num as int)) / (den as int) <= 1000 * (num as int)) by (nonlinear_arith)
                requires
                    0 <= 1000 * (num as int),
                    den as int >= 1,
            ;
        }
        (((1000 * num) as u64) / (den as u64)) as i64
    } else {
        proof {
            assert((1000 * (-(num as int))) / (den as int) <= 1000 * (-(num as int))) by (nonlinear_arith)
                requires
                    0 <= 1000 * (-(num as int)),
                    den as int >= 1,
            ;
        }
        -((((1000 * (-num)) as u64) / (den as u64)) as i64)
    }
}

/// Fixed-point cosine of a milli-radian angle, within `[-1000, 1000]`.
pub fn cos_milli(r: i64) -> (c: i64)
    requires
        -4_000_000_000_000_000_000 <= r <= 4_000_000_000_000_000_000,
    ensures
        c == cos_spec(r as int),
        -1000 <= c <= 1000,
{
    let x = reduce(r);
    if x <= 1571 {
        kernel(x)
    } else if x <= 4712 {
        -kernel(x - 3142)
    } else {
        kernel(6283 - x)
    }
}

/// Fixed-point sine of a milli-radian angle, within `[-1000, 1000]`.
pub fn sin_milli(r: i64) -> (s: i64)
    requires
        -3_999_999_999_999_990_000 <= r <= 4_000_000_000_000_000_000,
    ensures
        s == sin_spec(r as int),
        -1000 <= s <= 1000,
{
    cos_milli(r - 1571)
}

} // verus!
