//! Orientation frames and rotation helpers.
//!
//! An aircraft's orientation is an explicit frame of three local axes:
//! `x` (right), `y` (up) and `z` (back); the aircraft flies toward the
//! negation of `z`, as graphics conventions have it. A transform couples
//! a frame with a position. Rotations are applied either as an
//! instantaneous look-at or as a small incremental turn about the local
//! axes, using first-order sine and second-order cosine approximations,
//! which is all the sub-degree per-tick angles here can resolve.

use vstd::prelude::*;
use crate::fixed::{fix_mul, fix_ok, mul_fix, sat, sat_i64, sub_sat, SCALE};
use crate::vec3::{
    cross_spec, dot_spec, len_spec, norm_spec, vadd_spec, vec_ok, vscale_spec, vsub_spec, Vec3,
};

verus! {

/// A cross product shorter than this (one fixed-point step) counts as
/// degenerate and makes the helpers fall back to a fixed reference axis.
pub const TOLERANCE: i64 = 1;

/// The three local axes of an orientation: `x` right, `y` up, `z` back.
#[derive(Clone, Copy, PartialEq, Eq, Structural, Debug)]
pub struct Frame {
    pub x: Vec3,
    pub y: Vec3,
    pub z: Vec3,
}

/// Position and orientation of one aircraft.
#[derive(Clone, Copy, PartialEq, Eq, Structural, Debug)]
pub struct Transform {
    pub translation: Vec3,
    pub frame: Frame,
}

/// All axes of the frame are representable.
pub open spec fn frame_ok(f: Frame) -> bool {
    vec_ok(f.x) && vec_ok(f.y) && vec_ok(f.z)
}

/// Position and frame are representable.
pub open spec fn transform_ok(t: Transform) -> bool {
    vec_ok(t.translation) && frame_ok(t.frame)
}

/// Component-wise negation.
pub open spec fn vneg_spec(v: Vec3) -> Vec3 {
    Vec3 { x: -v.x as i64, y: -v.y as i64, z: -v.z as i64 }
}

/// The identity orientation: axes aligned with the world, flying toward
/// negative `z`.
pub open spec fn identity_frame() -> Frame {
    Frame {
        x: Vec3 { x: SCALE, y: 0, z: 0 },
        y: Vec3 { x: 0, y: SCALE, z: 0 },
        z: Vec3 { x: 0, y: 0, z: SCALE },
    }
}

/// The direction the frame flies toward: the negation of its back axis.
pub open spec fn forward_spec(f: Frame) -> Vec3 {
    vneg_spec(f.z)
}

/// The frame an instantaneous look-at produces: the back axis points from
/// the target to the eye, the right axis is squared up against `up_ref`.
/// A zero aim direction keeps the old frame; an aim direction parallel to
/// `up_ref` takes the world `x` axis as right instead of an undefined one.
pub open spec fn look_at_frame_spec(f: Frame, eye: Vec3, target: Vec3, up_ref: Vec3) -> Frame {
    let back = norm_spec(vsub_spec(eye, target));
    if back == (Vec3 { x: 0, y: 0, z: 0 }) {
        f
    } else {
        let r0 = norm_spec(cross_spec(up_ref, back));
        let right = if r0 == (Vec3 { x: 0, y: 0, z: 0 }) {
            Vec3 { x: SCALE, y: 0, z: 0 }
        } else {
            r0
        };
        Frame { x: right, y: cross_spec(back, right), z: back }
    }
}

/// Second-order approximation of the cosine of a small angle given in
/// thousandths of a radian.
pub open spec fn cos_small_spec(t: int) -> int {
    sat(SCALE as int - crate::fixed::tdiv(fix_mul(t, t), 2))
}

/// Rotation of `v` about the axis `k` by the small angle `t`, by the
/// Rodrigues formula with a first-order sine.
pub open spec fn rot_axis_spec(k: Vec3, t: int, v: Vec3) -> Vec3 {
    let c = cos_small_spec(t);
    vadd_spec(
        vadd_spec(vscale_spec(v, c), vscale_spec(cross_spec(k, v), t)),
        vscale_spec(k, fix_mul(dot_spec(k, v), sat(SCALE as int - c))),
    )
}

/// One incremental turn: roll about the back axis, then yaw about the up
/// axis, then pitch about the right axis, all three axes taken from the
/// frame as it stood before the turn.
pub open spec fn rot3_spec(f: Frame, pitch: int, yaw: int, roll: int, v: Vec3) -> Vec3 {
    rot_axis_spec(f.x, pitch, rot_axis_spec(f.y, yaw, rot_axis_spec(f.z, roll, v)))
}

/// The frame after an incremental turn: every axis rotated by `rot3_spec`.
pub open spec fn rotate_frame_spec(f: Frame, pitch: int, yaw: int, roll: int) -> Frame {
    Frame {
        x: rot3_spec(f, pitch, yaw, roll, f.x),
        y: rot3_spec(f, pitch, yaw, roll, f.y),
        z: rot3_spec(f, pitch, yaw, roll, f.z),
    }
}

impl Frame {
    /// The identity orientation.
    pub fn identity() -> (r: Frame)
        ensures
            r == identity_frame(),
            frame_ok(r),
    {
        Frame {
            x: Vec3 { x: SCALE, y: 0, z: 0 },
            y: Vec3 { x: 0, y: SCALE, z: 0 },
            z: Vec3 { x: 0, y: 0, z: SCALE },
        }
    }

    /// The direction this frame flies toward.
    pub fn forward(&self) -> (r: Vec3)
        requires
            frame_ok(*self),
        ensures
            r == forward_spec(*self),
            vec_ok(r),
    {
        Vec3 { x: -self.z.x, y: -self.z.y, z: -self.z.z }
    }
}

/// Cosine of a small angle, in thousandths.
pub(crate) fn cos_small(t: i64) -> (r: i64)
    requires
        fix_ok(t as int),
    ensures
        r as int == cos_small_spec(t as int),
        fix_ok(r as int),
{
    let m: i64 = crate::fixed::mul_fix(t, t);
    proof {
        assert(t * t >= 0) by (nonlinear_arith);
    }
    let h: i64 = (m as u64 / 2) as i64;
    sat_i64(SCALE - h)
}

/// Rotation of `v` about the axis `k` by the small angle `t`.
pub(crate) fn rotate_about(k: Vec3, t: i64, v: Vec3) -> (r: Vec3)
    requires
        vec_ok(k),
        vec_ok(v),
        fix_ok(t as int),
    ensures
        r == rot_axis_spec(k, t as int, v),
        vec_ok(r),
{
    let c: i64 = cos_small(t);
    let omc: i64 = sub_sat(SCALE, c);
    let term1: Vec3 = v.scaled(c);
    let term2: Vec3 = k.cross(v).scaled(t);
    let term3: Vec3 = k.scaled(mul_fix(k.dot(v), omc));
    term1.plus(term2).plus(term3)
}

impl Transform {
    /// A transform at the given position with the identity orientation.
    pub fn from_translation(translation: Vec3) -> (r: Transform)
        ensures
            r.translation == translation,
            r.frame == identity_frame(),
    {
        Transform { translation, frame: Frame::identity() }
    }

    /// The direction this transform flies toward.
    pub fn forward(&self) -> (r: Vec3)
        requires
            transform_ok(*self),
        ensures
            r == forward_spec(self.frame),
            vec_ok(r),
    {
        self.frame.forward()
    }

    /// Reorient instantly to face `target`, squaring up against `up_ref`.
    pub fn look_at(&mut self, target: Vec3, up_ref: Vec3)
        requires
            transform_ok(*old(self)),
            vec_ok(target),
            vec_ok(up_ref),
        ensures
            final(self).translation == old(self).translation,
            final(self).frame == look_at_frame_spec(
                old(self).frame,
                old(self).translation,
                target,
                up_ref,
            ),
            transform_ok(*final(self)),
    {
        let back: Vec3 = self.translation.minus(target).normalize_or_zero();
        if back.x == 0 && back.y == 0 && back.z == 0 {
            return;
        }
        let r0: Vec3 = up_ref.cross(back).normalize_or_zero();
        let right: Vec3 = if r0.x == 0 && r0.y == 0 && r0.z == 0 {
            Vec3 { x: SCALE, y: 0, z: 0 }
        } else {
            r0
        };
        let up: Vec3 = back.cross(right);
        self.frame = Frame { x: right, y: up, z: back };
    }

    /// Turn by small pitch, yaw and roll angles about the local axes.
    pub fn rotate_small(&mut self, pitch: i64, yaw: i64, roll: i64)
        requires
            transform_ok(*old(self)),
            fix_ok(pitch as int),
            fix_ok(yaw as int),
            fix_ok(roll as int),
        ensures
            final(self).translation == old(self).translation,
            final(self).frame == rotate_frame_spec(
                old(self).frame,
                pitch as int,
                yaw as int,
                roll as int,
            ),
            transform_ok(*final(self)),
    {
        let f: Frame = self.frame;
        let nx: Vec3 = rotate_about(f.x, pitch, rotate_about(f.y, yaw, rotate_about(f.z, roll, f.x)));
        let ny: Vec3 = rotate_about(f.x, pitch, rotate_about(f.y, yaw, rotate_about(f.z, roll, f.y)));
        let nz: Vec3 = rotate_about(f.x, pitch, rotate_about(f.y, yaw, rotate_about(f.z, roll, f.z)));
        self.frame = Frame { x: nx, y: ny, z: nz };
    }
}

/// A rotation, stored as quaternion components in thousandths.
#[derive(Clone, Copy, PartialEq, Eq, Structural, Debug)]
pub struct Quat {
    pub x: i64,
    pub y: i64,
    pub z: i64,
    pub w: i64,
}

/// The rotation `rotation_between` computes: its vector part is the cross
/// product of the normalized half-way direction with the normalized `v`,
/// its scalar part their dot product; a degenerate cross product falls
/// back to a half-turn about the world `x` axis.
pub open spec fn rotation_between_spec(u: Vec3, v: Vec3) -> Quat {
    let un = norm_spec(u);
    let vn = norm_spec(v);
    let half = norm_spec(vadd_spec(un, vn));
    let c = cross_spec(half, vn);
    if len_spec(c) < TOLERANCE as int {
        Quat { x: SCALE, y: 0, z: 0, w: 0 }
    } else {
        Quat { x: c.x, y: c.y, z: c.z, w: dot_spec(half, vn) as i64 }
    }
}

/// A rotation approximating the shortest arc that turns the direction of
/// `u` onto the direction of `v`. This is a best-effort helper, not an
/// exact shortest-path rotation: when `u` and `v` are parallel or
/// antiparallel within `TOLERANCE` the arc's axis is undefined, and a
/// fixed reference axis is substituted instead.
pub fn rotation_between(u: Vec3, v: Vec3) -> (r: Quat)
    requires
        vec_ok(u),
        vec_ok(v),
    ensures
        r == rotation_between_spec(u, v),
{
    let un: Vec3 = u.normalize_or_zero();
    let vn: Vec3 = v.normalize_or_zero();
    let half: Vec3 = un.plus(vn).normalize_or_zero();
    let c: Vec3 = half.cross(vn);
    if c.length() < TOLERANCE {
        Quat { x: SCALE, y: 0, z: 0, w: 0 }
    } else {
        Quat { x: c.x, y: c.y, z: c.z, w: half.dot(vn) }
    }
}

} // verus!
