use flightsim::controls::{ControlIntent, Controls, MAXIMUM_THRUST, MINIMUM_THRUST};
use flightsim::flight::{integrate, Player};
use flightsim::frame::{Frame, Transform};
use flightsim::roster::{ai_tick, formation, Plane, Team};
use flightsim::steer::{ai_follow_target, ai_system_step, axis_deviance, AI};
use flightsim::vec3::Vec3;

fn at(x: i64, y: i64, z: i64) -> Vec3 {
    Vec3 { x, y, z }
}

fn still_intent() -> ControlIntent {
    ControlIntent { pitch: 0, roll: 0, yaw: 0, thrust: 0 }
}

fn idle_controls() -> Controls {
    Controls { pitch: 0, yaw: 0, roll: 0, thrust: 0, airbrakes: false }
}

/// A frame facing toward positive `z` (the identity faces negative `z`).
fn facing_plus_z() -> Frame {
    Frame { x: at(-1000, 0, 0), y: at(0, 1000, 0), z: at(0, 0, -1000) }
}

#[test]
fn default_states() {
    let c = Controls::default();
    assert_eq!((c.pitch, c.yaw, c.roll, c.thrust, c.airbrakes), (0, 0, 0, 50_000, false));
    let p = Player::default();
    assert_eq!(p.velocity, at(0, 0, -40_000));
    assert!(!p.stalling);
    let a = AI::default();
    assert_eq!(a.health, 100_000);
    assert_eq!(a.velocity, at(0, 0, -1000));
    assert_eq!(a.target, None);
}

#[test]
fn smoothing_closes_a_tenth_per_tick() {
    let mut c = Controls::default();
    let intent = ControlIntent { pitch: 1000, roll: -1000, yaw: 0, thrust: 0 };
    c.smooth(&intent);
    assert_eq!(c.pitch, 100);
    assert_eq!(c.roll, -100);
    assert_eq!(c.yaw, 0);
    c.smooth(&intent);
    assert_eq!(c.pitch, 190);
    assert_eq!(c.roll, -190);
}

#[test]
fn held_zero_thrust_intent_never_leaves_the_band() {
    let mut c = Controls::default();
    for _ in 0..200 {
        c.smooth(&still_intent());
        assert!(c.thrust >= MINIMUM_THRUST);
        assert!(c.thrust <= MAXIMUM_THRUST);
    }
}

#[test]
fn held_negative_thrust_intent_stops_at_the_minimum() {
    let mut c = Controls::default();
    let braking = ControlIntent { pitch: 0, roll: 0, yaw: 0, thrust: -1000 };
    for _ in 0..120 {
        c.smooth(&braking);
        assert!(c.thrust >= MINIMUM_THRUST);
    }
    assert_eq!(c.thrust, MINIMUM_THRUST);
}

#[test]
fn held_positive_thrust_intent_stops_at_the_maximum() {
    let mut c = Controls::default();
    let full = ControlIntent { pitch: 0, roll: 0, yaw: 0, thrust: 1000 };
    for _ in 0..120 {
        c.smooth(&full);
        assert!(c.thrust <= MAXIMUM_THRUST);
    }
    assert_eq!(c.thrust, MAXIMUM_THRUST);
}

#[test]
fn ground_clamp_after_integration() {
    // at ground level with no thrust, gravity alone would push the
    // aircraft below the ground; the clamp keeps the altitude at zero
    let mut t = Transform::from_translation(at(0, 0, 0));
    let mut p = Player { velocity: at(0, 0, 0), stalling: false };
    let c = idle_controls();
    integrate(&mut t, &mut p, &c);
    assert_eq!(t.translation, at(0, 0, 0));
    assert_eq!(p.velocity, at(0, -163, 0));
    assert!(p.stalling);
}

#[test]
fn ground_clamp_after_steering() {
    // diving steeply from just above the ground: the integrated altitude
    // would be far below zero, the clamp clips only the altitude
    let mut t = Transform { translation: at(0, 100, 0), frame: Frame::identity() };
    let mut ai = AI { health: 100_000, velocity: at(0, -50_000, 0), target: None };
    ai_follow_target(&mut t, &mut ai, at(0, -100_000, 0));
    assert_eq!(t.translation.y, 0);
}

#[test]
fn stall_boundary_is_strict() {
    // this velocity against the identity frame's nose gives an axis
    // deviance of exactly one half, which is not yet a stall
    let f = Frame::identity();
    let v = at(866, 0, -500);
    assert_eq!(axis_deviance(v, f.forward()), 500);

    let mut t = Transform::from_translation(at(0, 10_000_000, 0));
    let mut p = Player { velocity: v, stalling: true };
    integrate(&mut t, &mut p, &idle_controls());
    assert!(!p.stalling);
}

#[test]
fn sideslip_below_the_boundary_stalls() {
    // velocity square across the nose: deviance zero, well below a half
    let mut t = Transform::from_translation(at(0, 10_000_000, 0));
    let mut p = Player { velocity: at(1000, 0, 0), stalling: false };
    integrate(&mut t, &mut p, &idle_controls());
    assert!(p.stalling);
}

#[test]
fn steering_toward_an_acquired_target() {
    // an ally at the origin facing positive z, drifting toward negative
    // z; the lone enemy sits straight down the negative z axis
    let mut t = Transform { translation: at(0, 0, 0), frame: facing_plus_z() };
    let mut ai = AI { health: 100_000, velocity: at(0, 0, -1000), target: Some(2) };
    let roster: Vec<(u64, Vec3)> = vec![(2, at(0, 0, -100_000))];

    let lost = ai_system_step(&mut t, &mut ai, &roster);
    assert!(!lost);
    // the lock is kept while the roster resolves it
    assert_eq!(ai.target, Some(2));
    // the nose snaps from facing positive z to facing the enemy
    assert_eq!(t.frame.forward(), at(0, 0, -1000));
    // the speed blends toward cruise and the aircraft advances: its z
    // coordinate decreases
    assert_eq!(ai.velocity, at(0, 0, -5900));
    assert_eq!(t.translation, at(0, 0, -5900));
}

#[test]
fn creeping_aircraft_cannot_overshoot_cruise_blend() {
    // a near-stationary aircraft, one thousandth of a unit of velocity
    // on each axis: the blend pulls its speed toward cruise, but never
    // past lerp(speed, cruise, 0.1) plus the stated rounding tolerance
    let mut t = Transform::from_translation(at(0, 0, 0));
    let mut ai = AI { health: 100_000, velocity: at(1, 1, 1), target: Some(2) };
    let roster: Vec<(u64, Vec3)> = vec![(2, at(0, 0, -100_000))];
    let lost = ai_system_step(&mut t, &mut ai, &roster);
    assert!(!lost);
    // the speed before was 0.001, so the blend target is 5.000; the
    // bound is that plus one part in a thousand plus three steps
    assert!(ai.velocity.length() <= 5000 + 5 + 3);
}

#[test]
fn formation_builds_a_row() {
    let f = formation(Team::Enemy, 5, 3, 100_000, 2_000_000, 0);
    assert_eq!(f.len(), 3);
    assert_eq!(f[0].handle, 5);
    assert_eq!(f[2].handle, 7);
    assert_eq!(f[1].transform.translation, at(100_000, 2_000_000, 0));
    assert_eq!(f[2].ai.target, None);
    assert_eq!(f[0].ai.velocity, at(0, 0, -1000));
}

#[test]
fn lost_target_clears_and_recovers() {
    // the locked handle is gone from the roster: the target is cleared,
    // the tick reports the loss, and the aircraft still flies on
    let mut t = Transform { translation: at(0, 5000, 0), frame: Frame::identity() };
    let mut ai = AI { health: 100_000, velocity: at(0, 0, -1000), target: Some(99) };
    let roster: Vec<(u64, Vec3)> = vec![(5, at(0, 0, -50_000))];

    let lost = ai_system_step(&mut t, &mut ai, &roster);
    assert!(lost);
    assert_eq!(ai.target, None);
    assert!(t.translation.y >= 0);
}

#[test]
fn roster_tick_acquires_and_moves_both_teams() {
    let planes: Vec<Plane> = vec![
        Plane {
            handle: 1,
            team: Team::Ally,
            transform: Transform::from_translation(at(0, 2_000_000, 0)),
            ai: AI::default(),
        },
        Plane {
            handle: 2,
            team: Team::Enemy,
            transform: Transform::from_translation(at(0, 2_000_000, -100_000)),
            ai: AI::default(),
        },
        Plane {
            handle: 3,
            team: Team::Neutral,
            transform: Transform::from_translation(at(0, 1_000_000, 0)),
            ai: AI::default(),
        },
    ];
    let neutral_before = planes[2];

    let (after, warnings) = ai_tick(planes);
    assert_eq!(after.len(), 3);
    assert!(warnings.is_empty());
    // each side locks onto the other's only aircraft
    assert_eq!(after[0].ai.target, Some(2));
    assert_eq!(after[1].ai.target, Some(1));
    // both moved; the neutral player plane is untouched by the AI tick
    assert_ne!(after[0].transform.translation, at(0, 2_000_000, 0));
    assert_ne!(after[1].transform.translation, at(0, 2_000_000, -100_000));
    assert_eq!(after[2], neutral_before);
}

#[test]
fn roster_tick_keeps_resolvable_locks() {
    let planes: Vec<Plane> = vec![
        Plane {
            handle: 1,
            team: Team::Ally,
            transform: Transform::from_translation(at(0, 2_000_000, 0)),
            ai: AI { health: 100_000, velocity: at(0, 0, -1000), target: Some(4) },
        },
        // a nearer enemy than the locked one: the lock must still hold
        Plane {
            handle: 3,
            team: Team::Enemy,
            transform: Transform::from_translation(at(0, 2_000_000, -10_000)),
            ai: AI::default(),
        },
        Plane {
            handle: 4,
            team: Team::Enemy,
            transform: Transform::from_translation(at(0, 2_000_000, -900_000)),
            ai: AI::default(),
        },
    ];
    let (after, warnings) = ai_tick(planes);
    assert!(warnings.is_empty());
    assert_eq!(after[0].ai.target, Some(4));
}

#[test]
fn roster_tick_warning_order_is_allies_first() {
    let mk = |handle: u64, team: Team, missing: u64| Plane {
        handle,
        team,
        transform: Transform::from_translation(at(0, 2_000_000, 0)),
        ai: AI { health: 100_000, velocity: at(0, 0, -1000), target: Some(missing) },
    };
    let planes: Vec<Plane> = vec![
        mk(2, Team::Enemy, 200),
        mk(1, Team::Ally, 100),
        mk(3, Team::Ally, 300),
    ];
    let (_, warnings) = ai_tick(planes);
    // ally losses come first, each side in roster order
    assert_eq!(warnings, vec![1, 3, 2]);
}

#[test]
fn roster_tick_reports_lost_targets() {
    let planes: Vec<Plane> = vec![
        Plane {
            handle: 1,
            team: Team::Ally,
            transform: Transform::from_translation(at(0, 2_000_000, 0)),
            ai: AI { health: 100_000, velocity: at(0, 0, -1000), target: Some(42) },
        },
    ];
    let (after, warnings) = ai_tick(planes);
    assert_eq!(warnings, vec![1]);
    assert_eq!(after[0].ai.target, None);
}
