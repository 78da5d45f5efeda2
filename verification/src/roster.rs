//! The aircraft roster and the per-team tick passes.
//!
//! Aircraft live in an explicit registry keyed by stable handles. The
//! ally and enemy systems are structurally identical except for which
//! side of the roster they search, so both run through one pair of
//! functions parameterized by team. A tick first snapshots each team's
//! `(handle, position)` pairs, then runs both targeting passes, then both
//! steering passes against the same start-of-tick snapshots: no
//! aircraft's update ever reads another's in-progress state, so the
//! outcome does not depend on update order within a pass.

use vstd::prelude::*;
use crate::frame::{transform_ok, Frame, Transform};
use crate::steer::{
    ai_ok, ai_system_step, aim_point_spec, follow_spec, steered_target_spec, target_lost_spec, AI,
};
use crate::target::{cand_ok, targeting_step, targeting_step_spec};
use crate::vec3::{vec_ok, Vec3};

verus! {

/// Which side an aircraft flies for; the player counts as neutral and is
/// not touched by the AI passes.
#[derive(Clone, Copy, PartialEq, Eq, Structural, Debug)]
pub enum Team {
    Ally,
    Enemy,
    Neutral,
}

/// One aircraft of the roster: a stable handle, its team, its transform
/// and its AI state.
#[derive(Clone, Copy, PartialEq, Eq, Structural, Debug)]
pub struct Plane {
    pub handle: u64,
    pub team: Team,
    pub transform: Transform,
    pub ai: AI,
}

/// The plane's transform and AI state are representable.
pub open spec fn plane_ok(p: Plane) -> bool {
    transform_ok(p.transform) && ai_ok(p.ai)
}

/// Every plane of the roster is representable.
pub open spec fn planes_ok(s: Seq<Plane>) -> bool {
    forall|i: int| 0 <= i < s.len() ==> plane_ok(#[trigger] s[i])
}

/// The `(handle, position)` pairs of one team, in roster order.
pub open spec fn snapshot_spec(s: Seq<Plane>, team: Team) -> Seq<(u64, Vec3)>
    decreases s.len(),
{
    if s.len() == 0 {
        Seq::empty()
    } else {
        let r = snapshot_spec(s.drop_last(), team);
        if s.last().team == team {
            r.push((s.last().handle, s.last().transform.translation))
        } else {
            r
        }
    }
}

/// Take the start-of-tick snapshot of one team's handles and positions.
pub fn snapshot(planes: &Vec<Plane>, team: Team) -> (r: Vec<(u64, Vec3)>)
    requires
        planes_ok(planes@),
    ensures
        r@ == snapshot_spec(planes@, team),
        cand_ok(r@),
{
    let mut out: Vec<(u64, Vec3)> = Vec::new();
    let mut i: usize = 0;
    while i < planes.len()
        invariant
            planes_ok(planes@),
            0 <= i <= planes@.len(),
            out@ == snapshot_spec(planes@.take(i as int), team),
            cand_ok(out@),
        decreases planes@.len() - i,
    {
        proof {
            assert(planes@.take(i as int + 1).drop_last() =~= planes@.take(i as int));
        }
        let p: Plane = planes[i];
        if p.team == team {
            out.push((p.handle, p.transform.translation));
        }
        i = i + 1;
    }
    proof {
        assert(planes@.take(planes@.len() as int) =~= planes@);
    }
    out
}

/// One plane of a scenario formation: planes stand in a row along the
/// `x` axis at one altitude and depth, with consecutive handles, level
/// orientation and default AI state.
pub open spec fn formation_plane_spec(
    team: Team,
    first_handle: u64,
    spacing: i64,
    altitude: i64,
    depth: i64,
    i: int,
) -> Plane {
    Plane {
        handle: (first_handle + i) as u64,
        team,
        transform: Transform {
            translation: Vec3 { x: (i * spacing) as i64, y: altitude, z: depth },
            frame: crate::frame::identity_frame(),
        },
        ai: crate::steer::default_ai_spec(),
    }
}

/// Build one team's formation for a scenario: `count` planes in a row.
pub fn formation(
    team: Team,
    first_handle: u64,
    count: usize,
    spacing: i64,
    altitude: i64,
    depth: i64,
) -> (r: Vec<Plane>)
    requires
        first_handle + count <= u64::MAX,
        count <= 1_000_000,
        0 <= spacing,
        count * spacing <= crate::fixed::FIX_BOUND,
        crate::fixed::fix_ok(altitude as int),
        crate::fixed::fix_ok(depth as int),
    ensures
        r@.len() == count,
        forall|i: int|
            0 <= i < count ==> #[trigger] r@[i] == formation_plane_spec(
                team,
                first_handle,
                spacing,
                altitude,
                depth,
                i,
            ),
        planes_ok(r@),
{
    let mut out: Vec<Plane> = Vec::new();
    let mut i: usize = 0;
    while i < count
        invariant
            first_handle + count <= u64::MAX,
            count <= 1_000_000,
            0 <= spacing,
            count * spacing <= crate::fixed::FIX_BOUND,
            crate::fixed::fix_ok(altitude as int),
            crate::fixed::fix_ok(depth as int),
            0 <= i <= count,
            out@.len() == i,
            forall|j: int|
                0 <= j < i ==> #[trigger] out@[j] == formation_plane_spec(
                    team,
                    first_handle,
                    spacing,
                    altitude,
                    depth,
                    j,
                ),
            planes_ok(out@),
        decreases count - i,
    {
        proof {
            assert(0 <= i * spacing <= count * spacing) by (nonlinear_arith)
                requires
                    0 <= i < count,
                    0 <= spacing,
            ;
        }
        let x: i64 = (i as i64) * spacing;
        out.push(
            Plane {
                handle: first_handle + (i as u64),
                team,
                transform: Transform {
                    translation: Vec3 { x, y: altitude, z: depth },
                    frame: Frame::identity(),
                },
                ai: AI::default(),
            },
        );
        i = i + 1;
    }
    out
}

/// What one targeting pass does to one plane: a plane of the pass's team
/// runs the targeting step against the candidate snapshot, any other
/// plane is untouched.
pub open spec fn targeting_plane_spec(p: Plane, team: Team, c: Seq<(u64, Vec3)>) -> Plane {
    if p.team == team {
        Plane {
            handle: p.handle,
            team: p.team,
            transform: p.transform,
            ai: AI {
                health: p.ai.health,
                velocity: p.ai.velocity,
                target: targeting_step_spec(p.ai.target, c, p.transform.translation),
            },
        }
    } else {
        p
    }
}

/// One targeting pass: every plane of `team` acquires or keeps a target
/// against the opposing snapshot; every other plane is untouched.
pub fn targeting_pass(planes: Vec<Plane>, team: Team, candidates: &Vec<(u64, Vec3)>) -> (r: Vec<
    Plane>)
    requires
        planes_ok(planes@),
        cand_ok(candidates@),
    ensures
        r@.len() == planes@.len(),
        forall|i: int|
            0 <= i < planes@.len() ==> #[trigger] r@[i] == targeting_plane_spec(
                planes@[i],
                team,
                candidates@,
            ),
        planes_ok(r@),
{
    let mut out: Vec<Plane> = Vec::new();
    let mut i: usize = 0;
    while i < planes.len()
        invariant
            planes_ok(planes@),
            cand_ok(candidates@),
            0 <= i <= planes@.len(),
            out@.len() == i,
            forall|j: int|
                0 <= j < i ==> #[trigger] out@[j] == targeting_plane_spec(
                    planes@[j],
                    team,
                    candidates@,
                ),
            planes_ok(out@),
        decreases planes@.len() - i,
    {
        let p: Plane = planes[i];
        if p.team == team {
            let nt: Option<u64> = targeting_step(p.ai.target, candidates, p.transform.translation);
            out.push(
                Plane {
                    handle: p.handle,
                    team: p.team,
                    transform: p.transform,
                    ai: AI { health: p.ai.health, velocity: p.ai.velocity, target: nt },
                },
            );
        } else {
            out.push(p);
        }
        i = i + 1;
    }
    out
}

/// What one steering pass does to one plane: a plane of the pass's team
/// flies one steering tick against the opposing snapshot, any other
/// plane is untouched.
pub open spec fn steering_plane_spec(p: Plane, team: Team, opposing: Seq<(u64, Vec3)>) -> Plane {
    if p.team == team {
        let res = follow_spec(
            p.transform,
            p.ai.velocity,
            aim_point_spec(p.ai.target, opposing, p.transform.frame),
        );
        Plane {
            handle: p.handle,
            team: p.team,
            transform: res.0,
            ai: AI {
                health: p.ai.health,
                velocity: res.1,
                target: steered_target_spec(p.ai.target, opposing),
            },
        }
    } else {
        p
    }
}

/// The handles of the pass's team whose locked target failed to resolve
/// this tick, in roster order: what the logging collaborator is told.
pub open spec fn warnings_spec(s: Seq<Plane>, team: Team, opposing: Seq<(u64, Vec3)>) -> Seq<u64>
    decreases s.len(),
{
    if s.len() == 0 {
        Seq::empty()
    } else {
        let r = warnings_spec(s.drop_last(), team, opposing);
        if s.last().team == team && target_lost_spec(s.last().ai.target, opposing) {
            r.push(s.last().handle)
        } else {
            r
        }
    }
}

/// One steering pass: every plane of `team` flies one steering tick
/// against the opposing snapshot; every other plane is untouched. Also
/// returns the handles whose locked target was lost, for the logging
/// collaborator — losing a target is recoverable and never an error.
pub fn steering_pass(planes: Vec<Plane>, team: Team, opposing: &Vec<(u64, Vec3)>) -> (r: (
    Vec<Plane>,
    Vec<u64>,
))
    requires
        planes_ok(planes@),
        cand_ok(opposing@),
    ensures
        r.0@.len() == planes@.len(),
        forall|i: int|
            0 <= i < planes@.len() ==> #[trigger] r.0@[i] == steering_plane_spec(
                planes@[i],
                team,
                opposing@,
            ),
        r.1@ == warnings_spec(planes@, team, opposing@),
        planes_ok(r.0@),
{
    let mut out: Vec<Plane> = Vec::new();
    let mut warnings: Vec<u64> = Vec::new();
    let mut i: usize = 0;
    while i < planes.len()
        invariant
            planes_ok(planes@),
            cand_ok(opposing@),
            0 <= i <= planes@.len(),
            out@.len() == i,
            forall|j: int|
                0 <= j < i ==> #[trigger] out@[j] == steering_plane_spec(
                    planes@[j],
                    team,
                    opposing@,
                ),
            warnings@ == warnings_spec(planes@.take(i as int), team, opposing@),
            planes_ok(out@),
        decreases planes@.len() - i,
    {
        proof {
            assert(planes@.take(i as int + 1).drop_last() =~= planes@.take(i as int));
        }
        let p: Plane = planes[i];
        if p.team == team {
            let mut t: Transform = p.transform;
            let mut a: AI = p.ai;
            let lost: bool = ai_system_step(&mut t, &mut a, opposing);
            if lost {
                warnings.push(p.handle);
            }
            out.push(Plane { handle: p.handle, team: p.team, transform: t, ai: a });
        } else {
            out.push(p);
        }
        i = i + 1;
    }
    proof {
        assert(planes@.take(planes@.len() as int) =~= planes@);
    }
    (out, warnings)
}

/// What one whole AI tick does to one plane, given the two start-of-tick
/// snapshots: targeting then steering against the opposing side's
/// snapshot for the AI teams, nothing for the neutral player.
pub open spec fn ai_tick_plane_spec(
    p: Plane,
    snap_ally: Seq<(u64, Vec3)>,
    snap_enemy: Seq<(u64, Vec3)>,
) -> Plane {
    match p.team {
        Team::Ally => steering_plane_spec(
            targeting_plane_spec(p, Team::Ally, snap_enemy),
            Team::Ally,
            snap_enemy,
        ),
        Team::Enemy => steering_plane_spec(
            targeting_plane_spec(p, Team::Enemy, snap_ally),
            Team::Enemy,
            snap_ally,
        ),
        Team::Neutral => p,
    }
}

/// The roster after both targeting passes: every AI plane has run the
/// targeting step against the opposing snapshot.
pub open spec fn targeted_roster_spec(
    s: Seq<Plane>,
    snap_ally: Seq<(u64, Vec3)>,
    snap_enemy: Seq<(u64, Vec3)>,
) -> Seq<Plane> {
    Seq::new(
        s.len(),
        |i: int|
            targeting_plane_spec(
                targeting_plane_spec(s[i], Team::Ally, snap_enemy),
                Team::Enemy,
                snap_ally,
            ),
    )
}

/// The warning list reads only planes of its own team: rosters that
/// agree on teams, and on every plane of that team, warn alike.
proof fn lemma_warnings_same_team(
    s1: Seq<Plane>,
    s2: Seq<Plane>,
    team: Team,
    opposing: Seq<(u64, Vec3)>,
)
    requires
        s1.len() == s2.len(),
        forall|i: int| 0 <= i < s1.len() ==> (#[trigger] s1[i]).team == s2[i].team,
        forall|i: int| 0 <= i < s1.len() && (#[trigger] s1[i]).team == team ==> s1[i] == s2[i],
    ensures
        warnings_spec(s1, team, opposing) == warnings_spec(s2, team, opposing),
    decreases s1.len(),
{
    if s1.len() > 0 {
        lemma_warnings_same_team(s1.drop_last(), s2.drop_last(), team, opposing);
        assert(s1[s1.len() - 1].team == s2[s2.len() - 1].team);
    }
}

/// An aircraft never comes out of a tick targeting its own team: any
/// lock an AI plane holds after a tick resolves in the opposing team's
/// snapshot, since acquisition searches only that snapshot and steering
/// clears any handle it does not resolve. The neutral player aircraft is
/// not touched at all.
pub proof fn lemma_tick_never_locks_own_team(
    p: Plane,
    snap_ally: Seq<(u64, Vec3)>,
    snap_enemy: Seq<(u64, Vec3)>,
    h: u64,
)
    requires
        ai_tick_plane_spec(p, snap_ally, snap_enemy).ai.target == Option::Some(h),
    ensures
        p.team == Team::Ally ==> crate::target::resolve_spec(snap_enemy, h) is Some,
        p.team == Team::Enemy ==> crate::target::resolve_spec(snap_ally, h) is Some,
        p.team == Team::Neutral ==> p.ai.target == Option::Some(h),
{
    match p.team {
        Team::Ally => {
            let t = targeting_plane_spec(p, Team::Ally, snap_enemy);
            crate::steer::lemma_surviving_lock_resolves(t.ai.target, snap_enemy, h);
        },
        Team::Enemy => {
            let t = targeting_plane_spec(p, Team::Enemy, snap_ally);
            crate::steer::lemma_surviving_lock_resolves(t.ai.target, snap_ally, h);
        },
        Team::Neutral => {},
    }
}

/// One whole AI tick over the roster. Both teams' snapshots are taken
/// first; all targeting runs before any steering, and every pass reads
/// only the start-of-tick snapshots, so no aircraft's update observes
/// another's in-progress state. Returns the new roster and, for the
/// logging collaborator, the handles whose locked target was lost this
/// tick: ally losses first, then enemy losses, each in roster order.
#[verifier::rlimit(100)]
pub fn ai_tick(planes: Vec<Plane>) -> (r: (Vec<Plane>, Vec<u64>))
    requires
        planes_ok(planes@),
    ensures
        r.0@.len() == planes@.len(),
        forall|i: int|
            0 <= i < planes@.len() ==> #[trigger] r.0@[i] == ai_tick_plane_spec(
                planes@[i],
                snapshot_spec(planes@, Team::Ally),
                snapshot_spec(planes@, Team::Enemy),
            ),
        ({
            let sa = snapshot_spec(planes@, Team::Ally);
            let se = snapshot_spec(planes@, Team::Enemy);
            let t = targeted_roster_spec(planes@, sa, se);
            r.1@ == warnings_spec(t, Team::Ally, se) + warnings_spec(t, Team::Enemy, sa)
        }),
        planes_ok(r.0@),
{
    let ghost s0 = planes@;
    let snap_ally: Vec<(u64, Vec3)> = snapshot(&planes, Team::Ally);
    let snap_enemy: Vec<(u64, Vec3)> = snapshot(&planes, Team::Enemy);
    let p1: Vec<Plane> = targeting_pass(planes, Team::Ally, &snap_enemy);
    let p2: Vec<Plane> = targeting_pass(p1, Team::Enemy, &snap_ally);
    proof {
        assert(p2@ =~= targeted_roster_spec(s0, snap_ally@, snap_enemy@));
    }
    let (p3, w1): (Vec<Plane>, Vec<u64>) = steering_pass(p2, Team::Ally, &snap_enemy);
    proof {
        lemma_warnings_same_team(p3@, p2@, Team::Enemy, snap_ally@);
    }
    let (p4, w2): (Vec<Plane>, Vec<u64>) = steering_pass(p3, Team::Enemy, &snap_ally);
    let mut warnings: Vec<u64> = w1;
    let ghost w_base = warnings@;
    let mut k: usize = 0;
    while k < w2.len()
        invariant
            0 <= k <= w2@.len(),
            warnings@ == w_base + w2@.take(k as int),
        decreases w2@.len() - k,
    {
        proof {
            assert(w2@.take(k as int + 1) =~= w2@.take(k as int).push(w2@[k as int]));
        }
        warnings.push(w2[k]);
        k = k + 1;
    }
    proof {
        assert(w2@.take(w2@.len() as int) =~= w2@);
    }
    (p4, warnings)
}

} // verus!
