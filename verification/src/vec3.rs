//! Three-component vectors over the fixed-point scalars.
//!
//! Positions, velocities and direction axes are all `Vec3` values whose
//! components count thousandths of a unit. Each operation has an exact
//! spec-level mirror; the executable code is proved to compute it.

use vstd::prelude::*;
use crate::fixed::{
    add_sat, fix_mul, fix_ok, isqrt_u128, lerp, lerp_spec, mul_fix, sat, sqrt_floor, sub_sat,
    FIX_BOUND,
};

verus! {

/// A vector of three fixed-point scalars.
#[derive(Clone, Copy, PartialEq, Eq, Structural, Debug)]
pub struct Vec3 {
    pub x: i64,
    pub y: i64,
    pub z: i64,
}

/// All three components are in the representable range.
pub open spec fn vec_ok(v: Vec3) -> bool {
    fix_ok(v.x as int) && fix_ok(v.y as int) && fix_ok(v.z as int)
}

/// Component-wise saturating sum.
pub open spec fn vadd_spec(a: Vec3, b: Vec3) -> Vec3 {
    Vec3 { x: sat(a.x + b.x) as i64, y: sat(a.y + b.y) as i64, z: sat(a.z + b.z) as i64 }
}

/// Component-wise saturating difference.
pub open spec fn vsub_spec(a: Vec3, b: Vec3) -> Vec3 {
    Vec3 { x: sat(a.x - b.x) as i64, y: sat(a.y - b.y) as i64, z: sat(a.z - b.z) as i64 }
}

/// Component-wise product with a scalar.
pub open spec fn vscale_spec(v: Vec3, k: int) -> Vec3 {
    Vec3 {
        x: fix_mul(v.x as int, k) as i64,
        y: fix_mul(v.y as int, k) as i64,
        z: fix_mul(v.z as int, k) as i64,
    }
}

/// Dot product: the saturating sum of the component products.
pub open spec fn dot_spec(a: Vec3, b: Vec3) -> int {
    sat(
        fix_mul(a.x as int, b.x as int) + fix_mul(a.y as int, b.y as int)
            + fix_mul(a.z as int, b.z as int),
    )
}

/// Cross product, component-wise over fixed-point products.
pub open spec fn cross_spec(a: Vec3, b: Vec3) -> Vec3 {
    Vec3 {
        x: sat(fix_mul(a.y as int, b.z as int) - fix_mul(a.z as int, b.y as int)) as i64,
        y: sat(fix_mul(a.z as int, b.x as int) - fix_mul(a.x as int, b.z as int)) as i64,
        z: sat(fix_mul(a.x as int, b.y as int) - fix_mul(a.y as int, b.x as int)) as i64,
    }
}

/// The raw sum of squared components: the squared length with no
/// rescaling or rounding at all.
pub open spec fn sq_len_spec(v: Vec3) -> int {
    v.x * v.x + v.y * v.y + v.z * v.z
}

/// Length: because components count thousandths, the square root of the
/// raw sum of squared components is again in thousandths.
pub open spec fn len_spec(v: Vec3) -> int {
    sat(sqrt_floor(sq_len_spec(v) as nat) as int)
}

/// Unit vector in the direction of `v`, or the zero vector for the zero
/// vector. The division runs at a ten-thousandth of a resolution step:
/// the numerator is widened by `SCALE * 10_000` and the denominator is
/// the square root of the squared length widened by `10_000^2`, so even
/// a sub-unit vector gets a faithful direction instead of an amplified
/// one. `lemma_norm_sq_bounded` shows the result never measurably
/// exceeds one unit.
pub open spec fn norm_spec(v: Vec3) -> Vec3 {
    if v == (Vec3 { x: 0, y: 0, z: 0 }) {
        Vec3 { x: 0, y: 0, z: 0 }
    } else {
        let l = sqrt_floor((sq_len_spec(v) * 100_000_000) as nat) as int;
        Vec3 {
            x: sat(crate::fixed::tdiv(v.x * 10_000_000, l)) as i64,
            y: sat(crate::fixed::tdiv(v.y * 10_000_000, l)) as i64,
            z: sat(crate::fixed::tdiv(v.z * 10_000_000, l)) as i64,
        }
    }
}

/// Component-wise linear interpolation.
pub open spec fn lerp_vec3_spec(a: Vec3, b: Vec3, t: int) -> Vec3 {
    Vec3 {
        x: lerp_spec(a.x as int, b.x as int, t) as i64,
        y: lerp_spec(a.y as int, b.y as int, t) as i64,
        z: lerp_spec(a.z as int, b.z as int, t) as i64,
    }
}

/// Squared Euclidean distance, exact (no rescaling): used only to compare
/// distances, which the squares order the same way.
pub open spec fn dist_sq_spec(a: Vec3, b: Vec3) -> int {
    (a.x - b.x) * (a.x - b.x) + (a.y - b.y) * (a.y - b.y) + (a.z - b.z) * (a.z - b.z)
}

impl Vec3 {
    /// The zero vector.
    pub fn zero() -> (r: Vec3)
        ensures
            r == (Vec3 { x: 0, y: 0, z: 0 }),
    {
        Vec3 { x: 0, y: 0, z: 0 }
    }

    /// Build a vector from three scalars.
    pub fn new(x: i64, y: i64, z: i64) -> (r: Vec3)
        ensures
            r == (Vec3 { x, y, z }),
    {
        Vec3 { x, y, z }
    }

    /// Saturating vector sum.
    pub fn plus(self, o: Vec3) -> (r: Vec3)
        requires
            vec_ok(self),
            vec_ok(o),
        ensures
            r == vadd_spec(self, o),
            vec_ok(r),
    {
        Vec3 { x: add_sat(self.x, o.x), y: add_sat(self.y, o.y), z: add_sat(self.z, o.z) }
    }

    /// Saturating vector difference.
    pub fn minus(self, o: Vec3) -> (r: Vec3)
        requires
            vec_ok(self),
            vec_ok(o),
        ensures
            r == vsub_spec(self, o),
            vec_ok(r),
    {
        Vec3 { x: sub_sat(self.x, o.x), y: sub_sat(self.y, o.y), z: sub_sat(self.z, o.z) }
    }

    /// Product with a scalar.
    pub fn scaled(self, k: i64) -> (r: Vec3)
        requires
            vec_ok(self),
            fix_ok(k as int),
        ensures
            r == vscale_spec(self, k as int),
            vec_ok(r),
    {
        Vec3 { x: mul_fix(self.x, k), y: mul_fix(self.y, k), z: mul_fix(self.z, k) }
    }

    /// Dot product.
    pub fn dot(self, o: Vec3) -> (r: i64)
        requires
            vec_ok(self),
            vec_ok(o),
        ensures
            r as int == dot_spec(self, o),
            fix_ok(r as int),
    {
        let mx: i64 = mul_fix(self.x, o.x);
        let my: i64 = mul_fix(self.y, o.y);
        let mz: i64 = mul_fix(self.z, o.z);
        crate::fixed::sat_i64(mx + my + mz)
    }

    /// Cross product.
    pub fn cross(self, o: Vec3) -> (r: Vec3)
        requires
            vec_ok(self),
            vec_ok(o),
        ensures
            r == cross_spec(self, o),
            vec_ok(r),
    {
        Vec3 {
            x: sub_sat(mul_fix(self.y, o.z), mul_fix(self.z, o.y)),
            y: sub_sat(mul_fix(self.z, o.x), mul_fix(self.x, o.z)),
            z: sub_sat(mul_fix(self.x, o.y), mul_fix(self.y, o.x)),
        }
    }

    /// Length of the vector, in thousandths of a unit.
    pub fn length(self) -> (r: i64)
        requires
            vec_ok(self),
        ensures
            r as int == len_spec(self),
            0 <= r <= FIX_BOUND,
    {
        let ax: u64 = abs_u64(self.x);
        let ay: u64 = abs_u64(self.y);
        let az: u64 = abs_u64(self.z);
        proof {
            assert(ax * ax <= 1_000_000_000_000_000_000_000_000_000_000u128
                && ay * ay <= 1_000_000_000_000_000_000_000_000_000_000u128
                && az * az <= 1_000_000_000_000_000_000_000_000_000_000u128)
                by (nonlinear_arith)
                requires
                    ax <= 1_000_000_000_000_000u64,
                    ay <= 1_000_000_000_000_000u64,
                    az <= 1_000_000_000_000_000u64,
            ;
        }
        let s: u128 = (ax as u128) * (ax as u128) + (ay as u128) * (ay as u128)
            + (az as u128) * (az as u128);
        proof {
            assert(s as int == self.x * self.x + self.y * self.y + self.z * self.z)
                by (nonlinear_arith)
                requires
                    ax as int == abs_int(self.x as int),
                    ay as int == abs_int(self.y as int),
                    az as int == abs_int(self.z as int),
                    s as int == (ax as int) * (ax as int) + (ay as int) * (ay as int) + (az
                        as int) * (az as int),
            ;
        }
        let r: u64 = isqrt_u128(s);
        if r > FIX_BOUND as u64 {
            FIX_BOUND
        } else {
            r as i64
        }
    }

    /// Unit direction of the vector, or zero for the zero vector:
    /// degenerate geometry falls back locally rather than failing. The
    /// division is widened so that even a sub-unit vector normalizes
    /// faithfully.
    pub fn normalize_or_zero(self) -> (r: Vec3)
        requires
            vec_ok(self),
        ensures
            r == norm_spec(self),
            vec_ok(r),
    {
        if self.x == 0 && self.y == 0 && self.z == 0 {
            return Vec3 { x: 0, y: 0, z: 0 };
        }
        let ax: u64 = abs_u64(self.x);
        let ay: u64 = abs_u64(self.y);
        let az: u64 = abs_u64(self.z);
        proof {
            assert(ax * ax <= 1_000_000_000_000_000_000_000_000_000_000u128
                && ay * ay <= 1_000_000_000_000_000_000_000_000_000_000u128
                && az * az <= 1_000_000_000_000_000_000_000_000_000_000u128)
                by (nonlinear_arith)
                requires
                    ax <= 1_000_000_000_000_000u64,
                    ay <= 1_000_000_000_000_000u64,
                    az <= 1_000_000_000_000_000u64,
            ;
        }
        let s: u128 = (ax as u128) * (ax as u128) + (ay as u128) * (ay as u128)
            + (az as u128) * (az as u128);
        proof {
            assert(s as int == sq_len_spec(self)) by (nonlinear_arith)
                requires
                    ax as int == abs_int(self.x as int),
                    ay as int == abs_int(self.y as int),
                    az as int == abs_int(self.z as int),
                    s as int == (ax as int) * (ax as int) + (ay as int) * (ay as int) + (az
                        as int) * (az as int),
            ;
            assert(s >= 1) by (nonlinear_arith)
                requires
                    ax >= 1 || ay >= 1 || az >= 1,
                    s as int == (ax as int) * (ax as int) + (ay as int) * (ay as int) + (az
                        as int) * (az as int),
            ;
        }
        let l: u64 = isqrt_u128(s * 100_000_000);
        proof {
            assert(l >= 10_000) by (nonlinear_arith)
                requires
                    (l as int + 1) * (l as int + 1) > 100_000_000,
            ;
        }
        Vec3 {
            x: norm_comp(self.x, l),
            y: norm_comp(self.y, l),
            z: norm_comp(self.z, l),
        }
    }
}

/// One component of the widened normalization.
fn norm_comp(c: i64, l: u64) -> (r: i64)
    requires
        fix_ok(c as int),
        l > 0,
    ensures
        r as int == sat(crate::fixed::tdiv(c * 10_000_000, l as int)),
{
    let w: i128 = (c as i128) * 10_000_000;
    let q: i128 = crate::fixed::tdiv_i128_u64(w, l);
    crate::fixed::sat_i128(q)
}

/// Magnitude of a scalar, as a mathematical integer.
pub open spec fn abs_int(x: int) -> int {
    if x >= 0 {
        x
    } else {
        -x
    }
}

/// Magnitude of a scalar, as an unsigned value.
pub(crate) fn abs_u64(x: i64) -> (r: u64)
    requires
        x > i64::MIN,
    ensures
        r as int == abs_int(x as int),
{
    if x < 0 {
        (-x) as u64
    } else {
        x as u64
    }
}

/// Component-wise linear interpolation between two vectors; `t` counts
/// thousandths and is not clamped.
pub fn lerp_vec3(a: Vec3, b: Vec3, t: i64) -> (r: Vec3)
    requires
        vec_ok(a),
        vec_ok(b),
        fix_ok(t as int),
    ensures
        r == lerp_vec3_spec(a, b, t as int),
        vec_ok(r),
{
    Vec3 { x: lerp(a.x, b.x, t), y: lerp(a.y, b.y, t), z: lerp(a.z, b.z, t) }
}

/// A raw sum of squared components is never negative.
pub proof fn lemma_sq_len_nonneg(v: Vec3)
    ensures
        sq_len_spec(v) >= 0,
{
    assert(v.x * v.x >= 0 && v.y * v.y >= 0 && v.z * v.z >= 0) by (nonlinear_arith);
}

/// Saturated truncating division cannot grow a square: the quotient of
/// `a` by `d`, squared and scaled back by `d^2`, stays under `a^2`.
pub proof fn lemma_sat_tdiv_sq(a: int, d: int)
    requires
        d > 0,
    ensures
        sat(crate::fixed::tdiv(a, d)) * sat(crate::fixed::tdiv(a, d)) * (d * d) <= a * a,
{
    let q = crate::fixed::tdiv(a, d);
    if a >= 0 {
        assert(0 <= q && d * q <= a) by (nonlinear_arith)
            requires
                a >= 0,
                d > 0,
                q == a / d,
        ;
    } else {
        assert(q <= 0 && d * q >= a) by (nonlinear_arith)
            requires
                a < 0,
                d > 0,
                q == -((-a) / d),
        ;
    }
    let s = sat(q);
    assert(s * s * (d * d) <= a * a) by (nonlinear_arith)
        requires
            d > 0,
            a >= 0 ==> 0 <= s && s <= q && d * q <= a,
            a < 0 ==> q <= s && s <= 0 && d * q >= a,
    ;
}

/// Scaling by `c` cannot grow the squared length past `c^2` times the
/// original, resolution loss included.
pub proof fn lemma_vscale_sq(v: Vec3, c: int)
    ensures
        sq_len_spec(vscale_spec(v, c)) * 1_000_000 <= sq_len_spec(v) * (c * c),
{
    lemma_sat_tdiv_sq(v.x * c, 1000);
    lemma_sat_tdiv_sq(v.y * c, 1000);
    lemma_sat_tdiv_sq(v.z * c, 1000);
    assert((v.x * c) * (v.x * c) == (v.x * v.x) * (c * c)) by (nonlinear_arith);
    assert((v.y * c) * (v.y * c) == (v.y * v.y) * (c * c)) by (nonlinear_arith);
    assert((v.z * c) * (v.z * c) == (v.z * v.z) * (c * c)) by (nonlinear_arith);
    let w = vscale_spec(v, c);
    assert(w.x as int == sat(crate::fixed::tdiv(v.x * c, 1000))
        && w.y as int == sat(crate::fixed::tdiv(v.y * c, 1000))
        && w.z as int == sat(crate::fixed::tdiv(v.z * c, 1000)));
    assert(sq_len_spec(v) * (c * c) == (v.x * v.x) * (c * c) + (v.y * v.y) * (c * c) + (v.z
        * v.z) * (c * c)) by (nonlinear_arith)
        requires
            sq_len_spec(v) == v.x * v.x + v.y * v.y + v.z * v.z,
    ;
}

/// Interpolating between two vectors with a weight between zero and one
/// unit stays inside any squared-length bound that holds both ends: the
/// blend is a convex combination, and rounding only shrinks components.
pub proof fn lemma_lerp_vec3_sq(a: Vec3, b: Vec3, t: int, m: int)
    requires
        0 <= t <= 1000,
        sq_len_spec(a) <= m,
        sq_len_spec(b) <= m,
    ensures
        sq_len_spec(lerp_vec3_spec(a, b, t)) <= m,
{
    let nx = (1000 - t) * a.x + t * b.x;
    let ny = (1000 - t) * a.y + t * b.y;
    let nz = (1000 - t) * a.z + t * b.z;
    lemma_sat_tdiv_sq(nx, 1000);
    lemma_sat_tdiv_sq(ny, 1000);
    lemma_sat_tdiv_sq(nz, 1000);
    assert(nx * nx <= 1000 * ((1000 - t) * (a.x * a.x) + t * (b.x * b.x))) by (nonlinear_arith)
        requires
            nx == (1000 - t) * a.x + t * b.x,
            0 <= t <= 1000,
    ;
    assert(ny * ny <= 1000 * ((1000 - t) * (a.y * a.y) + t * (b.y * b.y))) by (nonlinear_arith)
        requires
            ny == (1000 - t) * a.y + t * b.y,
            0 <= t <= 1000,
    ;
    assert(nz * nz <= 1000 * ((1000 - t) * (a.z * a.z) + t * (b.z * b.z))) by (nonlinear_arith)
        requires
            nz == (1000 - t) * a.z + t * b.z,
            0 <= t <= 1000,
    ;
    assert((1000 - t) * sq_len_spec(a) <= (1000 - t) * m) by (nonlinear_arith)
        requires
            sq_len_spec(a) <= m,
            t <= 1000,
    ;
    assert(t * sq_len_spec(b) <= t * m) by (nonlinear_arith)
        requires
            sq_len_spec(b) <= m,
            t >= 0,
    ;
    assert((1000 - t) * sq_len_spec(a) == (1000 - t) * (a.x * a.x) + (1000 - t) * (a.y * a.y) + (
        1000 - t) * (a.z * a.z)) by (nonlinear_arith)
        requires
            sq_len_spec(a) == a.x * a.x + a.y * a.y + a.z * a.z,
    ;
    assert(t * sq_len_spec(b) == t * (b.x * b.x) + t * (b.y * b.y) + t * (b.z * b.z))
        by (nonlinear_arith)
        requires
            sq_len_spec(b) == b.x * b.x + b.y * b.y + b.z * b.z,
    ;
    assert((1000 - t) * m + t * m == 1000 * m) by (nonlinear_arith);
    let cx = sat(crate::fixed::tdiv(nx, 1000));
    let cy = sat(crate::fixed::tdiv(ny, 1000));
    let cz = sat(crate::fixed::tdiv(nz, 1000));
    let w = lerp_vec3_spec(a, b, t);
    assert(w.x as int == cx && w.y as int == cy && w.z as int == cz);
    assert(sq_len_spec(w) * 1_000_000 <= 1_000_000 * m);
}

/// The widened normalization never measurably exceeds one unit: the
/// squared length of a normalized vector stays within two hundred parts
/// in a million of one, and its measured length is at most `SCALE`.
pub proof fn lemma_norm_sq_bounded(v: Vec3)
    requires
        vec_ok(v),
    ensures
        sq_len_spec(norm_spec(v)) <= 1_000_200,
        0 <= len_spec(norm_spec(v)) <= 1000,
{
    let n = norm_spec(v);
    if v == (Vec3 { x: 0, y: 0, z: 0 }) {
        assert(sq_len_spec(n) == 0);
    } else {
        let s = sq_len_spec(v);
        assert(s >= 1) by (nonlinear_arith)
            requires
                v.x != 0 || v.y != 0 || v.z != 0,
                s == v.x * v.x + v.y * v.y + v.z * v.z,
        ;
        crate::fixed::lemma_sqrt_floor_is_sqrt((s * 100_000_000) as nat);
        let l = sqrt_floor((s * 100_000_000) as nat) as int;
        assert(l >= 10_000) by (nonlinear_arith)
            requires
                (l + 1) * (l + 1) > 100_000_000,
                l >= 0,
        ;
        lemma_sat_tdiv_sq(v.x * 10_000_000, l);
        lemma_sat_tdiv_sq(v.y * 10_000_000, l);
        lemma_sat_tdiv_sq(v.z * 10_000_000, l);
        assert((v.x * 10_000_000) * (v.x * 10_000_000) == (v.x * v.x) * 100_000_000_000_000)
            by (nonlinear_arith);
        assert((v.y * 10_000_000) * (v.y * 10_000_000) == (v.y * v.y) * 100_000_000_000_000)
            by (nonlinear_arith);
        assert((v.z * 10_000_000) * (v.z * 10_000_000) == (v.z * v.z) * 100_000_000_000_000)
            by (nonlinear_arith);
        assert(n.x as int == sat(crate::fixed::tdiv(v.x * 10_000_000, l))
            && n.y as int == sat(crate::fixed::tdiv(v.y * 10_000_000, l))
            && n.z as int == sat(crate::fixed::tdiv(v.z * 10_000_000, l)));
        let sn = sq_len_spec(n);
        lemma_sq_len_nonneg(n);
        assert(sn * (l * l) == (n.x * n.x) * (l * l) + (n.y * n.y) * (l * l) + (n.z * n.z) * (l
            * l)) by (nonlinear_arith)
            requires
                sn == n.x * n.x + n.y * n.y + n.z * n.z,
        ;
        assert(sn * (l * l) <= s * 100_000_000_000_000);
        assert((l + 1) * (l + 1) == l * l + 2 * l + 1) by (nonlinear_arith);
        assert(s * 100_000_000 <= l * l + 2 * l);
        assert(s * 100_000_000_000_000 == (s * 100_000_000) * 1_000_000) by (nonlinear_arith);
        assert(sn * (l * l) <= (l * l + 2 * l) * 1_000_000) by (nonlinear_arith)
            requires
                sn * (l * l) <= s * 100_000_000_000_000,
                s * 100_000_000 <= l * l + 2 * l,
                s * 100_000_000_000_000 == (s * 100_000_000) * 1_000_000,
        ;
        assert(sn <= 1_000_200) by (nonlinear_arith)
            requires
                sn * (l * l) <= (l * l + 2 * l) * 1_000_000,
                l >= 10_000,
                sn >= 0,
        ;
    }
    crate::fixed::lemma_sqrt_floor_is_sqrt(sq_len_spec(n) as nat);
    let r = sqrt_floor(sq_len_spec(n) as nat) as int;
    assert(r <= 1000) by (nonlinear_arith)
        requires
            r * r <= 1_000_200,
            r >= 0,
    ;
}

/// Only the zero vector normalizes to zero: any other vector keeps a
/// direction, since its largest component comes out at more than half a
/// unit.
pub proof fn lemma_norm_nonzero(v: Vec3)
    requires
        vec_ok(v),
        v != (Vec3 { x: 0, y: 0, z: 0 }),
    ensures
        norm_spec(v) != (Vec3 { x: 0, y: 0, z: 0 }),
{
    let s = sq_len_spec(v);
    assert(s >= 1) by (nonlinear_arith)
        requires
            v.x != 0 || v.y != 0 || v.z != 0,
            s == v.x * v.x + v.y * v.y + v.z * v.z,
    ;
    crate::fixed::lemma_sqrt_floor_is_sqrt((s * 100_000_000) as nat);
    let l = sqrt_floor((s * 100_000_000) as nat) as int;
    let c: int = if v.x * v.x >= v.y * v.y && v.x * v.x >= v.z * v.z {
        v.x as int
    } else if v.y * v.y >= v.x * v.x && v.y * v.y >= v.z * v.z {
        v.y as int
    } else {
        v.z as int
    };
    assert(3 * (c * c) >= s) by (nonlinear_arith)
        requires
            s == v.x * v.x + v.y * v.y + v.z * v.z,
            c == (if v.x * v.x >= v.y * v.y && v.x * v.x >= v.z * v.z {
                v.x as int
            } else if v.y * v.y >= v.x * v.x && v.y * v.y >= v.z * v.z {
                v.y as int
            } else {
                v.z as int
            }),
    ;
    let ac: int = if c >= 0 {
        c
    } else {
        -c
    };
    assert(ac * ac == c * c && ac >= 0) by (nonlinear_arith)
        requires
            ac == (if c >= 0 {
                c
            } else {
                -c
            }),
    ;
    assert(ac >= 1) by (nonlinear_arith)
        requires
            3 * (ac * ac) >= s,
            s >= 1,
            ac >= 0,
    ;
    assert(l <= 17321 * ac) by (nonlinear_arith)
        requires
            l * l <= s * 100_000_000,
            3 * (c * c) >= s,
            ac * ac == c * c,
            ac >= 1,
            l >= 0,
    ;
    assert(l >= 10_000) by (nonlinear_arith)
        requires
            (l + 1) * (l + 1) > 100_000_000,
            l >= 0,
    ;
    let q = crate::fixed::tdiv(c * 10_000_000, l);
    assert(l <= 10_000_000 * ac);
    if c >= 0 {
        assert(c * 10_000_000 >= l) by (nonlinear_arith)
            requires
                c == ac,
                l <= 10_000_000 * ac,
        ;
        assert((c * 10_000_000) / l >= 1) by (nonlinear_arith)
            requires
                c * 10_000_000 >= l,
                l > 0,
        ;
        assert(q >= 1);
    } else {
        assert(-(c * 10_000_000) >= l) by (nonlinear_arith)
            requires
                -c == ac,
                l <= 10_000_000 * ac,
        ;
        assert(((-(c * 10_000_000)) / l) >= 1) by (nonlinear_arith)
            requires
                -(c * 10_000_000) >= l,
                l > 0,
        ;
        assert(q <= -1);
    }
    assert(sat(q) != 0);
    if v.x * v.x >= v.y * v.y && v.x * v.x >= v.z * v.z {
        assert(norm_spec(v).x as int == sat(q));
    } else if v.y * v.y >= v.x * v.x && v.y * v.y >= v.z * v.z {
        assert(norm_spec(v).y as int == sat(q));
    } else {
        assert(norm_spec(v).z as int == sat(q));
    }
}

/// Squared distance between two points, exact.
pub fn dist_sq(a: Vec3, b: Vec3) -> (r: u128)
    requires
        vec_ok(a),
        vec_ok(b),
    ensures
        r as int == dist_sq_spec(a, b),
{
    let dx: i64 = a.x - b.x;
    let dy: i64 = a.y - b.y;
    let dz: i64 = a.z - b.z;
    let ax: u64 = abs_u64(dx);
    let ay: u64 = abs_u64(dy);
    let az: u64 = abs_u64(dz);
    proof {
        assert(ax * ax <= 4_000_000_000_000_000_000_000_000_000_000u128
            && ay * ay <= 4_000_000_000_000_000_000_000_000_000_000u128
            && az * az <= 4_000_000_000_000_000_000_000_000_000_000u128)
            by (nonlinear_arith)
            requires
                ax <= 2_000_000_000_000_000u64,
                ay <= 2_000_000_000_000_000u64,
                az <= 2_000_000_000_000_000u64,
        ;
    }
    let r: u128 = (ax as u128) * (ax as u128) + (ay as u128) * (ay as u128)
        + (az as u128) * (az as u128);
    proof {
        assert(r as int == dist_sq_spec(a, b)) by (nonlinear_arith)
            requires
                ax as int == abs_int(a.x - b.x),
                ay as int == abs_int(a.y - b.y),
                az as int == abs_int(a.z - b.z),
                r as int == (ax as int) * (ax as int) + (ay as int) * (ay as int) + (az as int)
                    * (az as int),
        ;
    }
    r
}

} // verus!
