//! Fixed-point arithmetic on milli-unit `i64` values.
//!
//! A value `v` stands for the real number `v / 1000`. The product of two
//! fixed-point values is `a * b / 1000`, rounded toward zero, as Rust's
//! integer division would round it.

use vstd::prelude::*;

verus! {

/// Truncating (round-toward-zero) division of `a` by 1000.
pub open spec fn scale_down(a: int) -> int {
    if a >= 0 {
        a / 1000
    } else {
        -((-a) / 1000)
    }
}

/// The fixed-point product of `a` and `b`: the doubly-scaled integer product
/// brought back to a single scale, rounded toward zero.
pub open spec fn mul_fix_spec(a: int, b: int) -> int {
    scale_down(a * b)
}

/// One decay step of an exponential damping: subtract from `v` the fixed-point
/// product of `v` and the per-tick decay fraction `f` (in thousandths).
pub open spec fn decay_spec(v: int, f: int) -> int {
    v - scale_down(v * f)
}

pub proof fn lemma_scale_down_bounds(a: int, bound: int)
    requires
        -bound <= a <= bound,
        0 <= bound,
    ensures
        -bound <= scale_down(a) <= bound,
        a >= 0 ==> 0 <= scale_down(a) <= a,
        a < 0 ==> a <= scale_down(a) <= 0,
{
}

/// A product against a factor of at most one fixed-point unit in magnitude
/// never grows past the bound of the other factor once brought back to scale.
pub proof fn lemma_scale_product_bound(v: int, f: int, b: int)
    requires
        -b <= v <= b,
        -1000 <= f <= 1000,
        0 <= b,
    ensures
        -b <= scale_down(v * f) <= b,
{
    assert(-(b * 1000) <= v * f <= b * 1000) by (nonlinear_arith)
        requires
            -b <= v <= b,
            -1000 <= f <= 1000,
            0 <= b,
    ;
    if v * f >= 0 {
        assert((v * f) / 1000 <= (b * 1000) / 1000) by (nonlinear_arith)
            requires
                0 <= v * f <= b * 1000,
        ;
        assert((b * 1000) / 1000 == b) by (nonlinear_arith);
    } else {
        assert((-(v * f)) / 1000 <= (b * 1000) / 1000) by (nonlinear_arith)
            requires
                0 <= -(v * f) <= b * 1000,
        ;
        assert((b * 1000) / 1000 == b) by (nonlinear_arith);
    }
}

/// Fixed-point multiplication, exact relative to `mul_fix_spec`.
/// The factor bounds keep the intermediate product inside `i64`.
pub fn mul_fix(a: i64, b: i64) -> (r: i64)
    requires
        -4_000_000_000_000 <= a <= 4_000_000_000_000,
        -2_000_000 <= b <= 2_000_000,
    ensures
        r == mul_fix_spec(a as int, b as int),
{
    proof {
        assert(-8_000_000_000_000_000_000 <= (a as int) * (b as int) <= 8_000_000_000_000_000_000)
            by (nonlinear_arith)
            requires
                -4_000_000_000_000 <= a <= 4_000_000_000_000,
                -2_000_000 <= b <= 2_000_000,
        ;
    }
    let p: i64 = a * b;
    if p >= 0 {
        ((p as u64) / 1000) as i64
    } else {
        -((((-p) as u64) / 1000) as i64)
    }
}

/// One exponential-decay step on `v` with per-tick fraction `f` (thousandths).
/// With `f` at most one whole (1000), the result keeps the sign of `v` and
/// never grows in magnitude.
pub fn decay(v: i64, f: i64) -> (r: i64)
    requires
        -4_000_000_000_000 <= v <= 4_000_000_000_000,
        0 <= f <= 1000,
    ensures
        r == decay_spec(v as int, f as int),
        v >= 0 ==> 0 <= r <= v,
        v < 0 ==> v <= r <= 0,
{
    proof {
        lemma_decay_within(v as int, f as int);
    }
    let d = mul_fix(v, f);
    v - d
}

/// With a decay fraction of at most one whole, the subtracted amount lies
/// between zero and `v` itself, so the decayed value keeps the sign of `v`
/// and never grows in magnitude.
pub proof fn lemma_decay_within(v: int, f: int)
    requires
        0 <= f <= 1000,
    ensures
        v >= 0 ==> 0 <= scale_down(v * f) <= v && 0 <= decay_spec(v, f) <= v,
        v < 0 ==> v <= scale_down(v * f) <= 0 && v <= decay_spec(v, f) <= 0,
{
    if v >= 0 {
        assert(0 <= v * f <= v * 1000) by (nonlinear_arith)
            requires
                v >= 0,
                0 <= f <= 1000,
        ;
        assert((v * f) / 1000 <= (v * 1000) / 1000) by (nonlinear_arith)
            requires
                0 <= v * f <= v * 1000,
        ;
        assert((v * 1000) / 1000 == v) by (nonlinear_arith);
    } else {
        assert(0 <= -(v * f) <= (-v) * 1000) by (nonlinear_arith)
            requires
                v < 0,
                0 <= f <= 1000,
        ;
        assert((-(v * f)) / 1000 <= ((-v) * 1000) / 1000) by (nonlinear_arith)
            requires
                0 <= -(v * f) <= (-v) * 1000,
        ;
        assert(((-v) * 1000) / 1000 == -v) by (nonlinear_arith);
    }
}

/// Once the scaled decrement `v * f` reaches a whole subunit (1000), the decay
/// step strictly shrinks the magnitude of `v`.
pub proof fn lemma_decay_strict(v: int, f: int)
    requires
        0 <= f <= 1000,
    ensures
        v >= 0 && v * f >= 1000 ==> 0 <= decay_spec(v, f) < v,
        v < 0 && v * f <= -1000 ==> v < decay_spec(v, f) <= 0,
{
    lemma_decay_within(v, f);
    if v >= 0 && v * f >= 1000 {
        assert((v * f) / 1000 >= 1) by (nonlinear_arith)
            requires
                v * f >= 1000,
        ;
    }
    if v < 0 && v * f <= -1000 {
        assert((-(v * f)) / 1000 >= 1) by (nonlinear_arith)
            requires
                -(v * f) >= 1000,
        ;
    }
}

/// Law: the forward-friction stage of the integrator, which decays both
/// velocity components by the same per-tick fraction, never amplifies the
/// speed: the squared magnitude of the velocity after the step is at most
/// what it was before. It strictly shrinks once the scaled decrement of some
/// component amounts to a whole subunit, which is where fixed-point rounding
/// can no longer swallow the decay.
pub proof fn lemma_friction_reduces_speed(vx: int, vy: int, f: int)
    requires
        0 <= f <= 1000,
    ensures
        decay_spec(vx, f) * decay_spec(vx, f) + decay_spec(vy, f) * decay_spec(vy, f)
            <= vx * vx + vy * vy,
        (vx * f >= 1000 || vx * f <= -1000 || vy * f >= 1000 || vy * f <= -1000)
            ==> decay_spec(vx, f) * decay_spec(vx, f) + decay_spec(vy, f) * decay_spec(vy, f)
                < vx * vx + vy * vy,
{
    lemma_decay_within(vx, f);
    lemma_decay_within(vy, f);
    lemma_decay_strict(vx, f);
    lemma_decay_strict(vy, f);
    let dx = decay_spec(vx, f);
    let dy = decay_spec(vy, f);
    assert(dx * dx <= vx * vx) by (nonlinear_arith)
        requires
            (vx >= 0 && 0 <= dx <= vx) || (vx < 0 && vx <= dx <= 0),
    ;
    assert(dy * dy <= vy * vy) by (nonlinear_arith)
        requires
            (vy >= 0 && 0 <= dy <= vy) || (vy < 0 && vy <= dy <= 0),
    ;
    assert(vx >= 0 ==> vx * f >= 0) by (nonlinear_arith)
        requires
            f >= 0,
    ;
    assert(vy >= 0 ==> vy * f >= 0) by (nonlinear_arith)
        requires
            f >= 0,
    ;
    if vx * f >= 1000 || vx * f <= -1000 {
        assert(dx * dx < vx * vx) by (nonlinear_arith)
            requires
                (vx >= 0 && 0 <= dx < vx) || (vx < 0 && vx < dx <= 0),
        ;
    } else if vy * f >= 1000 || vy * f <= -1000 {
        assert(dy * dy < vy * vy) by (nonlinear_arith)
            requires
                (vy >= 0 && 0 <= dy < vy) || (vy < 0 && vy < dy <= 0),
        ;
    }
}

} // verus!
