//! The steering model: how an AI aircraft validates its target and flies
//! toward it.
//!
//! Each tick an aircraft resolves its target handle against the roster
//! snapshot. A resolved target gives the aim point; a handle the roster
//! no longer carries clears the target and the aircraft aims along its
//! own forward direction for this tick — a reported, recoverable
//! condition, never a failure. The aircraft then snaps its orientation
//! toward the aim point, blends its speed toward a cruise speed, nudges
//! its velocity toward its new nose direction at a rate damped by how
//! badly velocity and nose already disagree, and integrates its position,
//! never below the ground.

use vstd::prelude::*;
use crate::fixed::{clamp, clamp_spec, div_fix, fix_div, fix_mul, fix_ok, lerp, lerp_spec, mul_fix, SCALE};
use crate::frame::{forward_spec, look_at_frame_spec, transform_ok, Frame, Transform};
use crate::target::{cand_ok, resolve, resolve_spec, lemma_resolve_some_iff, targeting_step_spec};
use crate::vec3::{
    dot_spec, len_spec, lerp_vec3, lerp_vec3_spec, norm_spec, vadd_spec, vec_ok, vscale_spec, Vec3,
};

verus! {

/// Cruise speed the steering model blends toward, in thousandths.
pub const TARGET_VELOCITY: i64 = 50_000;

/// Fraction of the speed gap closed per tick, in thousandths.
pub const SPEED_BLEND_RATE: i64 = 100;

/// Base rate at which the velocity direction chases the nose, in
/// thousandths; it is scaled by the clamped axis deviance.
pub const NUDGE_RATE: i64 = 50;

/// State of one AI-controlled aircraft: its health, its velocity, and the
/// handle of the opponent it is locked onto, if any.
#[derive(Clone, Copy, PartialEq, Eq, Structural, Debug)]
pub struct AI {
    pub health: i64,
    pub velocity: Vec3,
    pub target: Option<u64>,
}

/// Health and velocity are representable.
pub open spec fn ai_ok(a: AI) -> bool {
    fix_ok(a.health as int) && vec_ok(a.velocity)
}

/// A fresh AI aircraft: full health, drifting slowly toward negative `z`,
/// no target.
pub open spec fn default_ai_spec() -> AI {
    AI { health: 100_000, velocity: Vec3 { x: 0, y: 0, z: (-1000) as i64 }, target: Option::None }
}

impl Default for AI {
    /// Full health, a slow drift toward negative `z`, no target.
    fn default() -> (r: AI)
        ensures
            r == default_ai_spec(),
            ai_ok(r),
    {
        AI { health: 100_000, velocity: Vec3 { x: 0, y: 0, z: -SCALE }, target: Option::None }
    }
}

/// Alignment between where an aircraft points and where it moves: the dot
/// product of the unit velocity and unit forward directions, divided by
/// the forward vector's length. Near one unit means flying straight, near
/// zero means sideslipping. A degenerate (zero-length) forward vector
/// yields zero rather than an undefined value.
pub open spec fn axis_deviance_spec(velocity: Vec3, forwards: Vec3) -> int {
    if len_spec(forwards) == 0 {
        0
    } else {
        fix_div(dot_spec(norm_spec(velocity), norm_spec(forwards)), len_spec(forwards))
    }
}

/// Compute the axis deviance of a velocity against a forward vector.
pub fn axis_deviance(velocity: Vec3, forwards: Vec3) -> (r: i64)
    requires
        vec_ok(velocity),
        vec_ok(forwards),
    ensures
        r as int == axis_deviance_spec(velocity, forwards),
        fix_ok(r as int),
{
    let fl: i64 = forwards.length();
    if fl == 0 {
        0
    } else {
        div_fix(velocity.normalize_or_zero().dot(forwards.normalize_or_zero()), fl)
    }
}

/// The up reference the steering model squares its look-at against: the
/// world `z` axis.
pub open spec fn steer_up_ref_spec() -> Vec3 {
    Vec3 { x: 0, y: 0, z: SCALE as i64 }
}

/// Everything one steering step does to a transform and a velocity, given
/// the aim point: the new orientation, velocity and position.
pub open spec fn follow_spec(t: Transform, vel: Vec3, target_vec: Vec3) -> (Transform, Vec3) {
    let forwards = forward_spec(t.frame);
    let dev = axis_deviance_spec(vel, forwards);
    let frame1 = look_at_frame_spec(t.frame, t.translation, target_vec, steer_up_ref_spec());
    let vel1 = vscale_spec(norm_spec(vel), lerp_spec(len_spec(vel), TARGET_VELOCITY as int, SPEED_BLEND_RATE as int));
    let vel2 = lerp_vec3_spec(
        vel1,
        vscale_spec(forward_spec(frame1), len_spec(vel1)),
        fix_mul(clamp_spec(dev, SPEED_BLEND_RATE as int, SCALE as int), NUDGE_RATE as int),
    );
    let pos1 = vadd_spec(t.translation, vel2);
    let pos2 = if pos1.y < 0 {
        Vec3 { x: pos1.x, y: 0, z: pos1.z }
    } else {
        pos1
    };
    (Transform { translation: pos2, frame: frame1 }, vel2)
}

/// One steering step toward an aim point. The orientation snaps to face
/// `target_vec`; the speed blends toward the cruise speed and cannot
/// overshoot it past the rounding tolerance (`lemma_cruise_speed_bounded`);
/// the velocity direction chases the new nose at a rate damped by the
/// axis deviance; the position advances by the velocity and is clamped
/// to the ground: the resulting altitude is never negative, however
/// negative the integrated value was.
pub fn ai_follow_target(transform: &mut Transform, ai: &mut AI, target_vec: Vec3)
    requires
        transform_ok(*old(transform)),
        ai_ok(*old(ai)),
        vec_ok(target_vec),
    ensures
        *final(transform) == follow_spec(*old(transform), old(ai).velocity, target_vec).0,
        final(ai).velocity == follow_spec(*old(transform), old(ai).velocity, target_vec).1,
        final(ai).target == old(ai).target,
        final(ai).health == old(ai).health,
        final(transform).translation.y >= 0,
        transform_ok(*final(transform)),
        ai_ok(*final(ai)),
{
    let forwards: Vec3 = transform.forward();
    let dev: i64 = axis_deviance(ai.velocity, forwards);

    transform.look_at(target_vec, Vec3 { x: 0, y: 0, z: SCALE });

    let normal: Vec3 = ai.velocity.normalize_or_zero();
    let speed: i64 = ai.velocity.length();
    let vel1: Vec3 = normal.scaled(lerp(speed, TARGET_VELOCITY, SPEED_BLEND_RATE));

    let nudge: i64 = mul_fix(clamp(dev, SPEED_BLEND_RATE, SCALE), NUDGE_RATE);
    let vel2: Vec3 = lerp_vec3(vel1, transform.forward().scaled(vel1.length()), nudge);
    ai.velocity = vel2;

    let pos1: Vec3 = transform.translation.plus(vel2);
    if pos1.y < 0 {
        transform.translation = Vec3 { x: pos1.x, y: 0, z: pos1.z };
    } else {
        transform.translation = pos1;
    }
}

/// The target an aircraft holds after one steering tick: a handle the
/// snapshot still resolves is kept, one it no longer resolves is cleared.
pub open spec fn steered_target_spec(cur: Option<u64>, s: Seq<(u64, Vec3)>) -> Option<u64> {
    match cur {
        Option::None => Option::None,
        Option::Some(h) => if resolve_spec(s, h) is Some {
            Option::Some(h)
        } else {
            Option::None
        },
    }
}

/// Whether this tick had to report a lost target.
pub open spec fn target_lost_spec(cur: Option<u64>, s: Seq<(u64, Vec3)>) -> bool {
    match cur {
        Option::None => false,
        Option::Some(h) => resolve_spec(s, h) is None,
    }
}

/// The point one steering tick aims at: the resolved target position, or
/// the aircraft's own forward direction when there is no target or the
/// handle no longer resolves.
pub open spec fn aim_point_spec(cur: Option<u64>, s: Seq<(u64, Vec3)>, f: Frame) -> Vec3 {
    match cur {
        Option::None => forward_spec(f),
        Option::Some(h) => match resolve_spec(s, h) {
            Option::Some(p) => p,
            Option::None => forward_spec(f),
        },
    }
}

/// One full steering tick for one aircraft against the opposing roster
/// snapshot, the same step whichever team the aircraft is on. Resolves
/// the held target into an aim point, clears a target the roster no
/// longer carries (returning true so a collaborator can log the warning),
/// and flies one `ai_follow_target` step toward the aim point.
pub fn ai_system_step(transform: &mut Transform, ai: &mut AI, opposing: &Vec<(u64, Vec3)>) -> (target_lost: bool)
    requires
        transform_ok(*old(transform)),
        ai_ok(*old(ai)),
        cand_ok(opposing@),
    ensures
        final(ai).target == steered_target_spec(old(ai).target, opposing@),
        target_lost == target_lost_spec(old(ai).target, opposing@),
        *final(transform) == follow_spec(
            *old(transform),
            old(ai).velocity,
            aim_point_spec(old(ai).target, opposing@, old(transform).frame),
        ).0,
        final(ai).velocity == follow_spec(
            *old(transform),
            old(ai).velocity,
            aim_point_spec(old(ai).target, opposing@, old(transform).frame),
        ).1,
        final(ai).health == old(ai).health,
        final(transform).translation.y >= 0,
        transform_ok(*final(transform)),
        ai_ok(*final(ai)),
{
    let mut target_vec: Vec3 = transform.forward();
    let mut lost: bool = false;
    match ai.target {
        Option::Some(h) => {
            match resolve(opposing, h) {
                Option::Some(p) => {
                    target_vec = p;
                },
                Option::None => {
                    lost = true;
                    ai.target = Option::None;
                },
            }
        },
        Option::None => {},
    }
    ai_follow_target(transform, ai, target_vec);
    lost
}

/// The steering step cannot speed an aircraft past the cruise blend: as
/// long as the aim point differs from the aircraft's own position, the
/// speed after `follow_spec` is at most `lerp(old speed, cruise, 0.1)`,
/// within a tolerance of one part in a thousand plus three resolution
/// steps for the fixed-point rounding of the normalization, the scaling
/// and the nudge.
pub proof fn lemma_cruise_speed_bounded(t: Transform, vel: Vec3, target_vec: Vec3)
    requires
        transform_ok(t),
        vec_ok(vel),
        vec_ok(target_vec),
        t.translation != target_vec,
    ensures
        ({
            let bound = lerp_spec(
                crate::vec3::len_spec(vel),
                TARGET_VELOCITY as int,
                SPEED_BLEND_RATE as int,
            );
            crate::vec3::len_spec(follow_spec(t, vel, target_vec).1) <= bound + bound / 1000 + 3
        }),
{
    let k = lerp_spec(len_spec(vel), TARGET_VELOCITY as int, SPEED_BLEND_RATE as int);
    let n = norm_spec(vel);
    let vel1 = vscale_spec(n, k);

    // the aim point is elsewhere, so the look-at takes its main branch
    let diff = crate::vec3::vsub_spec(t.translation, target_vec);
    if diff == (Vec3 { x: 0, y: 0, z: 0 }) {
        assert(t.translation == target_vec);
    }
    crate::vec3::lemma_norm_nonzero(diff);
    crate::vec3::lemma_norm_sq_bounded(diff);
    crate::vec3::lemma_norm_sq_bounded(vel);
    let back = norm_spec(diff);
    let frame1 = crate::frame::look_at_frame_spec(
        t.frame,
        t.translation,
        target_vec,
        steer_up_ref_spec(),
    );
    assert(frame1.z == back);
    let fwd1 = forward_spec(frame1);
    assert(fwd1.x as int == -(back.x as int) && fwd1.y as int == -(back.y as int) && fwd1.z as int
        == -(back.z as int));
    let f2 = crate::vec3::sq_len_spec(fwd1);
    assert(f2 == crate::vec3::sq_len_spec(back)) by (nonlinear_arith)
        requires
            f2 == fwd1.x * fwd1.x + fwd1.y * fwd1.y + fwd1.z * fwd1.z,
            crate::vec3::sq_len_spec(back) == back.x * back.x + back.y * back.y + back.z
                * back.z,
            fwd1.x == -back.x,
            fwd1.y == -back.y,
            fwd1.z == -back.z,
    ;
    crate::vec3::lemma_sq_len_nonneg(fwd1);

    // the blend target is non-negative and representable
    assert(len_spec(vel) >= 0);
    assert(crate::fixed::tdiv(900 * len_spec(vel) + 100 * 50_000, 1000) >= 0)
        by (nonlinear_arith)
        requires
            900 * len_spec(vel) + 100 * 50_000 >= 0,
    ;
    assert(0 <= k <= 1_000_000_000_000_000);
    assert(k * k >= 0) by (nonlinear_arith);

    // the squared speed after the cruise blend
    crate::vec3::lemma_vscale_sq(n, k);
    let a2 = crate::vec3::sq_len_spec(vel1);
    crate::vec3::lemma_sq_len_nonneg(vel1);
    assert(crate::vec3::sq_len_spec(n) * (k * k) <= 1_000_200 * (k * k)) by (nonlinear_arith)
        requires
            crate::vec3::sq_len_spec(n) <= 1_000_200,
            k * k >= 0,
    ;
    assert(a2 * 1_000_000 <= 1_000_200 * (k * k));

    // the squared length of the nudge target
    let l1 = len_spec(vel1);
    crate::fixed::lemma_sqrt_floor_is_sqrt(a2 as nat);
    let r1 = crate::fixed::sqrt_floor(a2 as nat) as int;
    assert(0 <= l1 <= r1);
    assert(l1 * l1 <= a2) by (nonlinear_arith)
        requires
            0 <= l1 <= r1,
            r1 * r1 <= a2,
    ;
    let w = vscale_spec(fwd1, l1);
    crate::vec3::lemma_vscale_sq(fwd1, l1);
    let b2 = crate::vec3::sq_len_spec(w);
    crate::vec3::lemma_sq_len_nonneg(w);
    assert(f2 * (l1 * l1) <= 1_000_200 * a2) by (nonlinear_arith)
        requires
            0 <= f2 <= 1_000_200,
            0 <= l1 * l1 <= a2,
    ;

    // both blend ends fit under one squared bound
    let big = 1_000_200 * 1_000_200 * (k * k);
    assert(a2 * 1_000_000_000_000 <= big) by (nonlinear_arith)
        requires
            a2 * 1_000_000 <= 1_000_200 * (k * k),
            k * k >= 0,
            big == 1_000_200 * 1_000_200 * (k * k),
    ;
    assert(b2 * 1_000_000_000_000 <= big) by (nonlinear_arith)
        requires
            b2 * 1_000_000 <= f2 * (l1 * l1),
            f2 * (l1 * l1) <= 1_000_200 * a2,
            a2 * 1_000_000 <= 1_000_200 * (k * k),
            k * k >= 0,
            big == 1_000_200 * 1_000_200 * (k * k),
    ;
    let m = big / 1_000_000_000_000;
    vstd::arithmetic::div_mod::lemma_div_is_ordered(a2 * 1_000_000_000_000, big, 1_000_000_000_000);
    vstd::arithmetic::div_mod::lemma_div_multiples_vanish(a2, 1_000_000_000_000);
    vstd::arithmetic::div_mod::lemma_div_is_ordered(b2 * 1_000_000_000_000, big, 1_000_000_000_000);
    vstd::arithmetic::div_mod::lemma_div_multiples_vanish(b2, 1_000_000_000_000);
    assert(a2 <= m && b2 <= m);

    // the nudge weight is a fraction of one unit
    let dev = axis_deviance_spec(vel, forward_spec(t.frame));
    let cc = clamp_spec(dev, SPEED_BLEND_RATE as int, SCALE as int);
    crate::fixed::lemma_tdiv_bounds(cc * 50, 1000, 5, 50);
    let tt = fix_mul(cc, 50);
    assert(0 <= tt <= 1000);

    // the nudged velocity stays under the bound, and so does its length
    let vel2 = crate::vec3::lerp_vec3_spec(vel1, w, tt);
    crate::vec3::lemma_lerp_vec3_sq(vel1, w, tt, m);
    let s2 = crate::vec3::sq_len_spec(vel2);
    crate::vec3::lemma_sq_len_nonneg(vel2);
    let qk = k / 1000;
    assert(qk >= 0 && 1000 * qk <= k && k <= 1000 * qk + 999) by (nonlinear_arith)
        requires
            k >= 0,
            qk == k / 1000,
    ;
    assert(1_000_200 * k < (k + qk + 4) * 1_000_000);
    assert((1_000_200 * k) * (1_000_200 * k) < ((k + qk + 4) * 1_000_000) * ((k + qk + 4)
        * 1_000_000)) by (nonlinear_arith)
        requires
            0 <= 1_000_200 * k,
            1_000_200 * k < (k + qk + 4) * 1_000_000,
    ;
    assert((1_000_200 * k) * (1_000_200 * k) == 1_000_200 * 1_000_200 * (k * k))
        by (nonlinear_arith);
    assert(((k + qk + 4) * 1_000_000) * ((k + qk + 4) * 1_000_000) == ((k + qk + 4) * (k + qk
        + 4)) * 1_000_000_000_000) by (nonlinear_arith);
    assert(big >= 0);
    assert(m * 1_000_000_000_000 <= big) by (nonlinear_arith)
        requires
            m == big / 1_000_000_000_000,
            big >= 0,
    ;
    assert(s2 * 1_000_000_000_000 <= m * 1_000_000_000_000) by (nonlinear_arith)
        requires
            s2 <= m,
    ;
    assert(s2 < (k + qk + 4) * (k + qk + 4));
    crate::fixed::lemma_sqrt_floor_is_sqrt(s2 as nat);
    let r2 = crate::fixed::sqrt_floor(s2 as nat) as int;
    assert(r2 <= k + qk + 3) by (nonlinear_arith)
        requires
            r2 * r2 <= s2,
            s2 < (k + qk + 4) * (k + qk + 4),
            r2 >= 0,
            k + qk + 4 > 0,
    ;
    assert(len_spec(vel2) <= k + qk + 3);
}

/// A locked target is sticky: while the roster still resolves the handle,
/// neither the targeting step nor the steering step changes it.
pub proof fn lemma_locked_target_is_sticky(h: u64, s: Seq<(u64, Vec3)>, pos: Vec3)
    requires
        resolve_spec(s, h) is Some,
    ensures
        targeting_step_spec(Option::Some(h), s, pos) == Option::<u64>::Some(h),
        steered_target_spec(Option::Some(h), s) == Option::<u64>::Some(h),
{
}

/// A lock that survives a steering tick always resolves in the opposing
/// snapshot the tick ran against. Acquisition only ever searches the
/// opposing team, and this closes the loop: an aircraft never holds a
/// target its opposing roster does not carry — in particular never a
/// member of its own team.
pub proof fn lemma_surviving_lock_resolves(cur: Option<u64>, s: Seq<(u64, Vec3)>, h: u64)
    requires
        steered_target_spec(cur, s) == Option::Some(h),
    ensures
        resolve_spec(s, h) is Some,
        cur == Option::Some(h),
{
}

/// A locked handle the roster no longer carries is cleared by the next
/// steering tick: the aircraft falls back to an unlocked state rather
/// than failing.
pub proof fn lemma_lost_target_clears(h: u64, s: Seq<(u64, Vec3)>)
    requires
        forall|j: int| 0 <= j < s.len() ==> (#[trigger] s[j].0) != h,
    ensures
        steered_target_spec(Option::Some(h), s) is None,
{
    lemma_resolve_some_iff(s, h);
}

} // verus!
