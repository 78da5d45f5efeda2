//! The flight integrator: the per-tick physical update of the
//! player-controlled aircraft, driven by the smoothed control surfaces.
//!
//! The model is a stylized arcade approximation, not aerodynamics: the
//! control axes turn the aircraft about its own axes scaled by how
//! cleanly it is flying, thrust follows a fourth-root response curve so
//! throttle gains taper at high settings, drag costs up to one percent of
//! speed per tick when flying dirty, gravity pulls a fixed amount per
//! tick, and a lift term cancels gravity in proportion to how much speed
//! lies along the nose, saturating above a threshold. The constants are
//! tuned for feel and carry no physical derivation.

use vstd::prelude::*;
use crate::controls::{controls_ok, Controls};
use crate::fixed::{
    clamp, clamp_spec, fix_mul, fix_div, div_fix, fourth_root_fix, fourth_root_spec, mul_fix,
    SCALE,
};
use crate::frame::{forward_spec, rotate_frame_spec, transform_ok, Transform};
use crate::steer::{axis_deviance, axis_deviance_spec, NUDGE_RATE, SPEED_BLEND_RATE};
use crate::vec3::{len_spec, lerp_vec3, lerp_vec3_spec, vadd_spec, vec_ok, vscale_spec, Vec3};

verus! {

/// Downward velocity change per tick: standard gravity (9.81 units per
/// squared second) over one sixtieth-of-a-second tick, in thousandths of
/// a unit — the exact value is 163.5 thousandths, truncated toward zero
/// as all fixed-point division here is.
pub const GRAVITY_PER_TICK: i64 = -163;

/// Upward velocity change a full unit of lift restores per tick: the
/// magnitude of `GRAVITY_PER_TICK`.
pub const LIFT_PER_TICK: i64 = 163;

/// On-axis speed above which lift fully cancels gravity, in thousandths.
pub const LIFT_THRESHOLD: i64 = 30_000;

/// Thrust response coefficient applied after the fourth root, in
/// thousandths.
pub const THRUST_COEFF: i64 = 300;

/// Pitch control sensitivity, in thousandths of a radian per tick.
pub const PITCH_SENS: i64 = 30;

/// Roll control sensitivity, in thousandths of a radian per tick.
pub const ROLL_SENS: i64 = 50;

/// Yaw control sensitivity, in thousandths of a radian per tick.
pub const YAW_SENS: i64 = 10;

/// Mildest drag factor, in thousandths: at worst one percent of speed is
/// lost per tick.
pub const DRAG_FLOOR: i64 = 990;

/// Axis deviance below which the aircraft counts as stalling; the bound
/// itself does not stall (the comparison is strict).
pub const STALL_THRESHOLD: i64 = 500;

/// Speed a fresh player aircraft starts at, in thousandths.
pub const INITIAL_PLANE_SPEED: i64 = 40_000;

/// State of the player aircraft: its velocity and whether it is
/// stalling, the latter exposed for the HUD collaborator.
#[derive(Clone, Copy, PartialEq, Eq, Structural, Debug)]
pub struct Player {
    pub velocity: Vec3,
    pub stalling: bool,
}

/// The velocity is representable.
pub open spec fn player_ok(p: Player) -> bool {
    vec_ok(p.velocity)
}

/// A fresh player aircraft: cruising toward negative `z`, not stalling.
pub open spec fn default_player_spec() -> Player {
    Player { velocity: Vec3 { x: 0, y: 0, z: (-40_000) as i64 }, stalling: false }
}

impl Default for Player {
    /// Cruising toward negative `z`, not stalling.
    fn default() -> (r: Player)
        ensures
            r == default_player_spec(),
            player_ok(r),
    {
        Player { velocity: Vec3 { x: 0, y: 0, z: -INITIAL_PLANE_SPEED }, stalling: false }
    }
}

/// Everything one integration tick does to the player's transform and
/// state, given the smoothed controls.
pub open spec fn integrate_spec(t: Transform, p: Player, c: Controls) -> (Transform, Player) {
    let forwards = forward_spec(t.frame);
    let dev = axis_deviance_spec(p.velocity, forwards);
    let on_axis = fix_mul(len_spec(p.velocity), dev);
    let pitch = fix_mul(fix_mul(c.pitch as int, PITCH_SENS as int), dev);
    let yaw = fix_mul(fix_mul(c.yaw as int, YAW_SENS as int), dev);
    let roll = fix_mul(fix_mul(c.roll as int, ROLL_SENS as int), dev);
    let frame1 = rotate_frame_spec(t.frame, pitch, yaw, roll);
    let vel1 = vadd_spec(
        p.velocity,
        vscale_spec(forwards, fix_mul(fourth_root_spec(c.thrust as int), THRUST_COEFF as int)),
    );
    let vel2 = lerp_vec3_spec(
        vel1,
        vscale_spec(forward_spec(frame1), len_spec(vel1)),
        fix_mul(clamp_spec(dev, SPEED_BLEND_RATE as int, SCALE as int), NUDGE_RATE as int),
    );
    let vel3 = vscale_spec(vel2, clamp_spec(dev, DRAG_FLOOR as int, SCALE as int));
    let vel4 = vadd_spec(vel3, Vec3 { x: 0, y: GRAVITY_PER_TICK, z: 0 });
    let lift_y = if on_axis > LIFT_THRESHOLD as int {
        fix_mul(LIFT_PER_TICK as int, dev)
    } else {
        fix_mul(fix_mul(LIFT_PER_TICK as int, dev), fix_div(on_axis, LIFT_THRESHOLD as int))
    };
    let vel5 = vadd_spec(vel4, Vec3 { x: 0, y: lift_y as i64, z: 0 });
    let pos1 = vadd_spec(t.translation, vel5);
    let pos2 = if pos1.y < 0 {
        Vec3 { x: pos1.x, y: 0, z: pos1.z }
    } else {
        pos1
    };
    (
        Transform { translation: pos2, frame: frame1 },
        Player { velocity: vel5, stalling: dev < STALL_THRESHOLD as int },
    )
}

/// One integration tick of the player aircraft. The control axes turn
/// the frame about its own right, up and back axes (roll applied first,
/// then yaw, then pitch, as `rot3_spec` states — the composition order
/// matters), thrust pushes along the old nose with a fourth-root
/// response, the velocity chases the new nose, drag and gravity apply,
/// lift cancels gravity in proportion to the on-axis speed, and the
/// position advances, clamped to the ground: the resulting altitude is
/// never negative, however negative the integrated value was. The stall
/// flag ends up set exactly when the axis deviance fell strictly below
/// `STALL_THRESHOLD`: a deviance exactly at the threshold is not a stall.
#[verifier::rlimit(100)]
pub fn integrate(transform: &mut Transform, player: &mut Player, controls: &Controls)
    requires
        transform_ok(*old(transform)),
        player_ok(*old(player)),
        controls_ok(*controls),
    ensures
        *final(transform) == integrate_spec(*old(transform), *old(player), *controls).0,
        *final(player) == integrate_spec(*old(transform), *old(player), *controls).1,
        final(transform).translation.y >= 0,
        final(player).stalling == (axis_deviance_spec(
            old(player).velocity,
            forward_spec(old(transform).frame),
        ) < STALL_THRESHOLD as int),
        transform_ok(*final(transform)),
        player_ok(*final(player)),
{
    let forwards: Vec3 = transform.forward();
    let dev: i64 = axis_deviance(player.velocity, forwards);
    let on_axis: i64 = mul_fix(player.velocity.length(), dev);

    let pitch: i64 = mul_fix(mul_fix(controls.pitch, PITCH_SENS), dev);
    let yaw: i64 = mul_fix(mul_fix(controls.yaw, YAW_SENS), dev);
    let roll: i64 = mul_fix(mul_fix(controls.roll, ROLL_SENS), dev);
    transform.rotate_small(pitch, yaw, roll);

    let thrust_gain: i64 = mul_fix(fourth_root_fix(controls.thrust), THRUST_COEFF);
    let vel1: Vec3 = player.velocity.plus(forwards.scaled(thrust_gain));

    let nudge: i64 = mul_fix(clamp(dev, SPEED_BLEND_RATE, SCALE), NUDGE_RATE);
    let vel2: Vec3 = lerp_vec3(vel1, transform.forward().scaled(vel1.length()), nudge);

    let vel3: Vec3 = vel2.scaled(clamp(dev, DRAG_FLOOR, SCALE));
    let vel4: Vec3 = vel3.plus(Vec3 { x: 0, y: GRAVITY_PER_TICK, z: 0 });

    let lift_y: i64 = if on_axis > LIFT_THRESHOLD {
        mul_fix(LIFT_PER_TICK, dev)
    } else {
        mul_fix(mul_fix(LIFT_PER_TICK, dev), div_fix(on_axis, LIFT_THRESHOLD))
    };
    let vel5: Vec3 = vel4.plus(Vec3 { x: 0, y: lift_y, z: 0 });
    player.velocity = vel5;

    let pos1: Vec3 = transform.translation.plus(vel5);
    if pos1.y < 0 {
        transform.translation = Vec3 { x: pos1.x, y: 0, z: pos1.z };
    } else {
        transform.translation = pos1;
    }

    player.stalling = dev < STALL_THRESHOLD;
}

} // verus!
