//! Fixed-point scalar arithmetic.
//!
//! A scalar is an `i64` counting thousandths of a unit: `SCALE` (1000) is
//! one unit. Magnitudes are capped at `FIX_BOUND`; the arithmetic here
//! saturates at that bound instead of overflowing, which mirrors the very
//! wide dynamic range the simulation needs while keeping every operation
//! total. Division truncates toward zero, as `tdiv` states.

use vstd::prelude::*;

verus! {

/// One unit, in fixed-point steps: all scalars count thousandths.
pub const SCALE: i64 = 1000;

/// Largest magnitude a scalar may take; arithmetic saturates here.
pub const FIX_BOUND: i64 = 1_000_000_000_000_000;

/// A scalar is in range when its magnitude is at most `FIX_BOUND`.
pub open spec fn fix_ok(x: int) -> bool {
    -(FIX_BOUND as int) <= x <= FIX_BOUND as int
}

/// Saturation: clip a mathematical integer into the representable range.
pub open spec fn sat(x: int) -> int {
    if x > FIX_BOUND as int {
        FIX_BOUND as int
    } else if x < -(FIX_BOUND as int) {
        -(FIX_BOUND as int)
    } else {
        x
    }
}

/// Division truncating toward zero, for a positive divisor.
pub open spec fn tdiv(a: int, b: int) -> int
    recommends
        b > 0,
{
    if a >= 0 {
        a / b
    } else {
        -((-a) / b)
    }
}

/// Fixed-point product: `a * b` rescaled by one unit, saturated.
pub open spec fn fix_mul(a: int, b: int) -> int {
    sat(tdiv(a * b, SCALE as int))
}

/// Fixed-point quotient: `a / b` rescaled by one unit, saturated.
pub open spec fn fix_div(a: int, b: int) -> int
    recommends
        b > 0,
{
    sat(tdiv(a * (SCALE as int), b))
}

/// Clamping into `[lo, hi]`.
pub open spec fn clamp_spec(x: int, lo: int, hi: int) -> int {
    if x < lo {
        lo
    } else if x > hi {
        hi
    } else {
        x
    }
}

/// Linear interpolation `(1 - t) * a + t * b`, where `t` counts
/// thousandths: `t == SCALE` is one. `t` is not clamped.
pub open spec fn lerp_spec(a: int, b: int, t: int) -> int {
    sat(tdiv((SCALE as int - t) * a + t * b, SCALE as int))
}

/// Saturate an `i64` into the representable range.
pub(crate) fn sat_i64(x: i64) -> (r: i64)
    ensures
        r as int == sat(x as int),
        fix_ok(r as int),
{
    if x > FIX_BOUND {
        FIX_BOUND
    } else if x < -FIX_BOUND {
        -FIX_BOUND
    } else {
        x
    }
}

/// Saturate an `i128` into the representable range.
pub(crate) fn sat_i128(x: i128) -> (r: i64)
    ensures
        r as int == sat(x as int),
        fix_ok(r as int),
{
    if x > FIX_BOUND as i128 {
        FIX_BOUND
    } else if x < -(FIX_BOUND as i128) {
        -FIX_BOUND
    } else {
        x as i64
    }
}

/// Truncating division of a wide intermediate by a positive divisor.
pub(crate) fn tdiv_i128(w: i128, d: i64) -> (r: i128)
    requires
        d > 0,
        w > i128::MIN,
    ensures
        r as int == tdiv(w as int, d as int),
{
    if w >= 0 {
        let q: u128 = (w as u128) / (d as u128);
        q as i128
    } else {
        let q: u128 = ((-w) as u128) / (d as u128);
        -(q as i128)
    }
}

/// Truncating division of a wide intermediate by a positive divisor too
/// large for `i64`.
pub(crate) fn tdiv_i128_u64(w: i128, d: u64) -> (r: i128)
    requires
        d > 0,
        w > i128::MIN,
    ensures
        r as int == tdiv(w as int, d as int),
{
    if w >= 0 {
        let q: u128 = (w as u128) / (d as u128);
        q as i128
    } else {
        let q: u128 = ((-w) as u128) / (d as u128);
        -(q as i128)
    }
}

/// Linear interpolation between `a` and `b`; `t` counts thousandths and
/// is not clamped, so `t == SCALE` lands exactly on `b`.
pub fn lerp(a: i64, b: i64, t: i64) -> (r: i64)
    requires
        fix_ok(a as int),
        fix_ok(b as int),
        fix_ok(t as int),
    ensures
        r as int == lerp_spec(a as int, b as int, t as int),
        fix_ok(r as int),
{
    proof {
        assert((SCALE as int - t) * a <= 1_000_001_000_000_000_000_000_000_000_000int
            && (SCALE as int - t) * a >= -1_000_001_000_000_000_000_000_000_000_000int)
            by (nonlinear_arith)
            requires
                -(FIX_BOUND as int) <= a as int <= FIX_BOUND as int,
                -(FIX_BOUND as int) <= t as int <= FIX_BOUND as int,
                SCALE == 1000,
                FIX_BOUND == 1_000_000_000_000_000,
        ;
        assert(t * b <= 1_000_001_000_000_000_000_000_000_000_000int
            && t * b >= -1_000_001_000_000_000_000_000_000_000_000int)
            by (nonlinear_arith)
            requires
                -(FIX_BOUND as int) <= b as int <= FIX_BOUND as int,
                -(FIX_BOUND as int) <= t as int <= FIX_BOUND as int,
                FIX_BOUND == 1_000_000_000_000_000,
        ;
    }
    let w: i128 = (SCALE - t) as i128 * (a as i128) + (t as i128) * (b as i128);
    let q: i128 = tdiv_i128(w, SCALE);
    sat_i128(q)
}

/// Clamp `x` into `[lo, hi]`; callers keep `lo <= hi`.
pub fn clamp(x: i64, lo: i64, hi: i64) -> (r: i64)
    requires
        lo <= hi,
    ensures
        r as int == clamp_spec(x as int, lo as int, hi as int),
        lo <= r <= hi,
{
    if x < lo {
        return lo;
    }
    if x > hi {
        return hi;
    }
    return x;
}

/// Fixed-point multiplication, saturated.
pub fn mul_fix(a: i64, b: i64) -> (r: i64)
    requires
        fix_ok(a as int),
        fix_ok(b as int),
    ensures
        r as int == fix_mul(a as int, b as int),
        fix_ok(r as int),
{
    proof {
        assert(a * b <= 1_000_000_000_000_000_000_000_000_000_000int
            && a * b >= -1_000_000_000_000_000_000_000_000_000_000int)
            by (nonlinear_arith)
            requires
                -(FIX_BOUND as int) <= a as int <= FIX_BOUND as int,
                -(FIX_BOUND as int) <= b as int <= FIX_BOUND as int,
                FIX_BOUND == 1_000_000_000_000_000,
        ;
    }
    let w: i128 = (a as i128) * (b as i128);
    let q: i128 = tdiv_i128(w, SCALE);
    sat_i128(q)
}

/// Fixed-point division by a positive scalar, saturated.
pub fn div_fix(a: i64, b: i64) -> (r: i64)
    requires
        fix_ok(a as int),
        fix_ok(b as int),
        b > 0,
    ensures
        r as int == fix_div(a as int, b as int),
        fix_ok(r as int),
{
    let w: i128 = (a as i128) * (SCALE as i128);
    let q: i128 = tdiv_i128(w, b);
    sat_i128(q)
}

/// Saturating addition of two in-range scalars.
pub fn add_sat(a: i64, b: i64) -> (r: i64)
    requires
        fix_ok(a as int),
        fix_ok(b as int),
    ensures
        r as int == sat(a + b),
        fix_ok(r as int),
{
    sat_i64(a + b)
}

/// Saturating subtraction of two in-range scalars.
pub fn sub_sat(a: i64, b: i64) -> (r: i64)
    requires
        fix_ok(a as int),
        fix_ok(b as int),
    ensures
        r as int == sat(a - b),
        fix_ok(r as int),
{
    sat_i64(a - b)
}

/// `r` is the integer square root of `x`: the largest integer whose
/// square does not exceed `x`.
pub open spec fn is_sqrt(x: int, r: int) -> bool {
    0 <= r && r * r <= x && x < (r + 1) * (r + 1)
}

/// The integer square root, defined by counting up.
pub open spec fn sqrt_floor(x: nat) -> nat
    decreases x,
{
    if x == 0 {
        0
    } else {
        let r = sqrt_floor((x - 1) as nat);
        if (r + 1) * (r + 1) <= x {
            r + 1
        } else {
            r
        }
    }
}

/// `sqrt_floor` meets the square-root characterization.
pub proof fn lemma_sqrt_floor_is_sqrt(x: nat)
    ensures
        is_sqrt(x as int, sqrt_floor(x) as int),
    decreases x,
{
    if x == 0 {
    } else {
        lemma_sqrt_floor_is_sqrt((x - 1) as nat);
        let r = sqrt_floor((x - 1) as nat);
        if (r + 1) * (r + 1) <= x {
            assert((r + 1) * (r + 1) < (r + 2) * (r + 2)) by (nonlinear_arith);
        }
    }
}

/// Only one integer meets the square-root characterization.
pub proof fn lemma_sqrt_unique(x: int, r1: int, r2: int)
    by (nonlinear_arith)
    requires
        is_sqrt(x, r1),
        is_sqrt(x, r2),
    ensures
        r1 == r2,
{
}

/// Integer square root of a wide unsigned value, by bisection.
pub fn isqrt_u128(x: u128) -> (r: u64)
    ensures
        is_sqrt(x as int, r as int),
        r as nat == sqrt_floor(x as nat),
{
    let mut lo: u128 = 0;
    let mut hi: u128 = 18_446_744_073_709_551_616;
    proof {
        assert((hi as int) * (hi as int) > x as int) by (nonlinear_arith)
            requires
                hi == 18_446_744_073_709_551_616,
                x <= u128::MAX,
        ;
    }
    while hi - lo > 1
        invariant
            0 <= lo < hi <= 18_446_744_073_709_551_616,
            (lo as int) * (lo as int) <= x as int,
            (hi as int) * (hi as int) > x as int,
        decreases hi - lo,
    {
        let mid: u128 = lo + (hi - lo) / 2;
        proof {
            assert(mid * mid <= 340_282_366_920_938_463_426_481_119_284_349_108_225u128)
                by (nonlinear_arith)
                requires
                    mid <= 18_446_744_073_709_551_615u128,
            ;
        }
        if mid * mid <= x {
            lo = mid;
        } else {
            hi = mid;
        }
    }
    proof {
        lemma_sqrt_floor_is_sqrt(x as nat);
        lemma_sqrt_unique(x as int, lo as int, sqrt_floor(x as nat) as int);
    }
    lo as u64
}

/// The throttle response curve's root: the fixed-point fourth root, so the
/// thrust gain tapers at high settings. For a scalar `t` counting
/// thousandths this is the integer square root applied twice to
/// `t * SCALE^3`, which keeps the result in thousandths as well.
pub open spec fn fourth_root_spec(t: int) -> int
    recommends
        t >= 0,
{
    sqrt_floor(sqrt_floor((t * 1_000_000_000) as nat)) as int
}

/// Fixed-point fourth root of a non-negative scalar.
pub fn fourth_root_fix(t: i64) -> (r: i64)
    requires
        0 <= t <= FIX_BOUND,
    ensures
        r as int == fourth_root_spec(t as int),
        0 <= r <= FIX_BOUND,
{
    let s1: u64 = isqrt_u128((t as u128) * 1_000_000_000);
    let s2: u64 = isqrt_u128(s1 as u128);
    proof {
        assert(s2 as int <= FIX_BOUND as int) by (nonlinear_arith)
            requires
                is_sqrt(s1 as int, s2 as int),
                is_sqrt((t as int) * 1_000_000_000, s1 as int),
                0 <= t as int <= 1_000_000_000_000_000,
                FIX_BOUND == 1_000_000_000_000_000,
        ;
    }
    s2 as i64
}

/// Truncating division keeps an enclosing interval: if `w` lies between
/// `d * lo` and `d * hi`, its truncated quotient by `d` lies between `lo`
/// and `hi`.
pub proof fn lemma_tdiv_bounds(w: int, d: int, lo: int, hi: int)
    requires
        d > 0,
        d * lo <= w <= d * hi,
    ensures
        lo <= tdiv(w, d) <= hi,
{
    assert(d * (-lo) == -(d * lo) && d * (-hi) == -(d * hi)) by (nonlinear_arith);
    if w >= 0 {
        vstd::arithmetic::div_mod::lemma_div_is_ordered(w, d * hi, d);
        vstd::arithmetic::div_mod::lemma_div_multiples_vanish(hi, d);
        if lo > 0 {
            vstd::arithmetic::div_mod::lemma_div_is_ordered(d * lo, w, d);
            vstd::arithmetic::div_mod::lemma_div_multiples_vanish(lo, d);
        } else {
            vstd::arithmetic::div_mod::lemma_div_pos_is_pos(w, d);
        }
    } else {
        vstd::arithmetic::div_mod::lemma_div_is_ordered(-w, d * (-lo), d);
        vstd::arithmetic::div_mod::lemma_div_multiples_vanish(-lo, d);
        if hi < 0 {
            vstd::arithmetic::div_mod::lemma_div_is_ordered(d * (-hi), -w, d);
            vstd::arithmetic::div_mod::lemma_div_multiples_vanish(-hi, d);
        } else {
            vstd::arithmetic::div_mod::lemma_div_pos_is_pos(-w, d);
        }
    }
}

/// Interpolation with a weight between zero and one unit stays inside any
/// representable interval that holds both end points.
pub proof fn lemma_lerp_bounds(a: int, b: int, t: int, lo: int, hi: int)
    requires
        lo <= a <= hi,
        lo <= b <= hi,
        0 <= t <= SCALE as int,
        fix_ok(lo),
        fix_ok(hi),
    ensures
        lo <= lerp_spec(a, b, t) <= hi,
{
    let w = (SCALE as int - t) * a + t * b;
    assert(1000 * lo <= w <= 1000 * hi) by (nonlinear_arith)
        requires
            lo <= a <= hi,
            lo <= b <= hi,
            0 <= t <= 1000,
            w == (1000 - t) * a + t * b,
    ;
    lemma_tdiv_bounds(w, 1000, lo, hi);
}

/// Interpolating with weight zero gives the start point back, and with a
/// whole unit of weight gives the end point: the interpolation is exact at
/// both ends, for every representable pair of scalars.
pub proof fn lemma_lerp_endpoints(a: int, b: int)
    requires
        fix_ok(a),
        fix_ok(b),
    ensures
        lerp_spec(a, b, 0) == a,
        lerp_spec(a, b, SCALE as int) == b,
{
    assert((1000 * a) / 1000 == a && (1000 * b) / 1000 == b) by (nonlinear_arith);
    assert((-(1000 * a)) == 1000 * (-a)) by (nonlinear_arith);
    assert((-(1000 * b)) == 1000 * (-b)) by (nonlinear_arith);
    assert((1000 * (-a)) / 1000 == -a && (1000 * (-b)) / 1000 == -b) by (nonlinear_arith);
}

/// Clamping is idempotent: clamping an already clamped value changes
/// nothing.
pub proof fn lemma_clamp_idempotent(x: int, lo: int, hi: int)
    requires
        lo <= hi,
    ensures
        clamp_spec(clamp_spec(x, lo, hi), lo, hi) == clamp_spec(x, lo, hi),
{
}

} // verus!
