use flightsim::fixed::{clamp, fourth_root_fix, isqrt_u128, lerp, FIX_BOUND};
use flightsim::frame::{rotation_between, Quat};
use flightsim::vec3::{dist_sq, lerp_vec3, Vec3};

#[test]
fn lerp_weight_zero_returns_start() {
    assert_eq!(lerp(3210, -777, 0), 3210);
    assert_eq!(lerp(-40_000, 123_456, 0), -40_000);
    assert_eq!(lerp(0, 0, 0), 0);
}

#[test]
fn lerp_weight_one_returns_end() {
    assert_eq!(lerp(3210, -777, 1000), -777);
    assert_eq!(lerp(-40_000, 123_456, 1000), 123_456);
    assert_eq!(lerp(FIX_BOUND, -FIX_BOUND, 1000), -FIX_BOUND);
}

#[test]
fn lerp_interpolates_between() {
    // one tenth of the way from 0 to 1000
    assert_eq!(lerp(0, 1000, 100), 100);
    // half way from 2000 to 1000
    assert_eq!(lerp(2000, 1000, 500), 1500);
    // one tenth of the way from 1000 toward 50000 (the cruise blend)
    assert_eq!(lerp(1000, 50_000, 100), 5900);
}

#[test]
fn clamp_selects_bound_or_value() {
    assert_eq!(clamp(5, 0, 10), 5);
    assert_eq!(clamp(-5, 0, 10), 0);
    assert_eq!(clamp(15, 0, 10), 10);
    assert_eq!(clamp(7, 7, 7), 7);
}

#[test]
fn clamp_is_idempotent_on_samples() {
    let samples: Vec<i64> = vec![-1_000_000, -1, 0, 40_000, 80_000, 123_456];
    for x in samples {
        let once = clamp(x, 0, 80_000);
        assert_eq!(clamp(once, 0, 80_000), once);
    }
}

#[test]
fn isqrt_exact_values() {
    assert_eq!(isqrt_u128(0), 0);
    assert_eq!(isqrt_u128(1), 1);
    assert_eq!(isqrt_u128(3), 1);
    assert_eq!(isqrt_u128(4), 2);
    assert_eq!(isqrt_u128(999_956), 999);
    assert_eq!(isqrt_u128(1_000_000), 1000);
    assert_eq!(isqrt_u128(u64::MAX as u128), 4_294_967_295);
}

#[test]
fn fourth_root_of_full_throttle() {
    // 80.0^(1/4) is about 2.9907: the curve tapers the gain
    assert_eq!(fourth_root_fix(80_000), 2990);
    assert_eq!(fourth_root_fix(0), 0);
    // the fourth root of one unit is one unit exactly
    assert_eq!(fourth_root_fix(1000), 1000);
}

#[test]
fn vector_length_and_normalize() {
    let v = Vec3 { x: 3000, y: 4000, z: 0 };
    assert_eq!(v.length(), 5000);
    let n = v.normalize_or_zero();
    assert_eq!(n, Vec3 { x: 600, y: 800, z: 0 });

    let w = Vec3 { x: 0, y: 0, z: -5000 };
    assert_eq!(w.normalize_or_zero(), Vec3 { x: 0, y: 0, z: -1000 });

    // the zero vector has no direction: the fallback is zero, not a fault
    let z = Vec3 { x: 0, y: 0, z: 0 };
    assert_eq!(z.length(), 0);
    assert_eq!(z.normalize_or_zero(), z);
}

#[test]
fn sub_unit_vectors_normalize_faithfully() {
    // one thousandth of a unit on each axis: the direction comes out at
    // (0.577, 0.577, 0.577), not amplified past one unit
    let v = Vec3 { x: 1, y: 1, z: 1 };
    let n = v.normalize_or_zero();
    assert_eq!(n, Vec3 { x: 577, y: 577, z: 577 });
    assert!(n.length() <= 1000);
    assert_eq!(
        Vec3 { x: 1, y: 0, z: 0 }.normalize_or_zero(),
        Vec3 { x: 1000, y: 0, z: 0 }
    );
}

#[test]
fn vector_dot_and_cross() {
    let x = Vec3 { x: 1000, y: 0, z: 0 };
    let y = Vec3 { x: 0, y: 1000, z: 0 };
    let z = Vec3 { x: 0, y: 0, z: 1000 };
    assert_eq!(x.dot(x), 1000);
    assert_eq!(x.dot(y), 0);
    assert_eq!(x.cross(y), z);
    assert_eq!(y.cross(x), Vec3 { x: 0, y: 0, z: -1000 });
}

#[test]
fn vector_lerp_component_wise() {
    let a = Vec3 { x: 0, y: 1000, z: -2000 };
    let b = Vec3 { x: 1000, y: 0, z: 2000 };
    assert_eq!(lerp_vec3(a, b, 0), a);
    assert_eq!(lerp_vec3(a, b, 1000), b);
    assert_eq!(lerp_vec3(a, b, 500), Vec3 { x: 500, y: 500, z: 0 });
}

#[test]
fn squared_distance_is_exact() {
    let a = Vec3 { x: 0, y: 0, z: 0 };
    let b = Vec3 { x: 3, y: 4, z: 0 };
    assert_eq!(dist_sq(a, b), 25);
    assert_eq!(dist_sq(b, b), 0);
}

#[test]
fn rotation_between_perpendicular_axes() {
    // a quarter turn about z: components match sin and cos of 45 degrees
    let u = Vec3 { x: 1000, y: 0, z: 0 };
    let v = Vec3 { x: 0, y: 1000, z: 0 };
    let q = rotation_between(u, v);
    assert_eq!(q, Quat { x: 0, y: 0, z: 707, w: 707 });
}

#[test]
fn rotation_between_parallel_falls_back() {
    // parallel directions leave the arc's axis undefined: the fixed
    // reference axis is substituted
    let u = Vec3 { x: 1000, y: 0, z: 0 };
    let q = rotation_between(u, u);
    assert_eq!(q, Quat { x: 1000, y: 0, z: 0, w: 0 });
}
