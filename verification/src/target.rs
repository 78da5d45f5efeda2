//! Target acquisition: nearest-opponent search and the two-state
//! per-aircraft targeting machine.
//!
//! A roster snapshot is a list of `(handle, position)` pairs for the
//! opposing team, taken at the start of the tick. An aircraft without a
//! target re-acquires every tick until a search succeeds (unlocked); one
//! with a target keeps it untouched here (locked) and leaves its
//! re-validation to the steering step.

use vstd::prelude::*;
use crate::vec3::{dist_sq, dist_sq_spec, vec_ok, Vec3};

verus! {

/// Every candidate position in the snapshot is representable.
pub open spec fn cand_ok(s: Seq<(u64, Vec3)>) -> bool {
    forall|i: int| 0 <= i < s.len() ==> vec_ok(#[trigger] s[i].1)
}

/// Index of the candidate nearest to `pos`, first one winning ties:
/// a later candidate displaces an earlier one only by being strictly
/// nearer.
pub open spec fn closest_idx(s: Seq<(u64, Vec3)>, pos: Vec3) -> int
    decreases s.len(),
{
    if s.len() <= 1 {
        0
    } else {
        let r = closest_idx(s.drop_last(), pos);
        if dist_sq_spec(s[s.len() - 1].1, pos) < dist_sq_spec(s[r].1, pos) {
            s.len() - 1
        } else {
            r
        }
    }
}

/// The handle the nearest-target search returns: none on an empty
/// snapshot, else the handle of the first nearest candidate.
pub open spec fn find_closest_spec(s: Seq<(u64, Vec3)>, pos: Vec3) -> Option<u64> {
    if s.len() == 0 {
        Option::None
    } else {
        Option::Some(s[closest_idx(s, pos)].0)
    }
}

/// The nearest candidate really is nearest: no candidate is strictly
/// nearer, and every earlier candidate is strictly farther, which makes
/// the choice the first of the nearest. Distances are compared squared,
/// which orders them exactly as the Euclidean distances do.
pub proof fn lemma_find_closest_minimizes(s: Seq<(u64, Vec3)>, pos: Vec3)
    requires
        s.len() > 0,
    ensures
        0 <= closest_idx(s, pos) < s.len(),
        forall|j: int|
            0 <= j < s.len() ==> dist_sq_spec(s[closest_idx(s, pos)].1, pos) <= dist_sq_spec(
                #[trigger] s[j].1,
                pos,
            ),
        forall|j: int|
            0 <= j < closest_idx(s, pos) ==> dist_sq_spec(#[trigger] s[j].1, pos) > dist_sq_spec(
                s[closest_idx(s, pos)].1,
                pos,
            ),
    decreases s.len(),
{
    if s.len() > 1 {
        let p = s.drop_last();
        let r = closest_idx(p, pos);
        let c = closest_idx(s, pos);
        lemma_find_closest_minimizes(p, pos);
        assert(forall|j: int| 0 <= j < s.len() - 1 ==> #[trigger] p[j] == s[j]);
        if dist_sq_spec(s[s.len() - 1].1, pos) < dist_sq_spec(s[r].1, pos) {
            assert(c == s.len() - 1);
            assert forall|j: int| 0 <= j < s.len() implies dist_sq_spec(s[c].1, pos)
                <= dist_sq_spec(#[trigger] s[j].1, pos) by {
                if j < s.len() - 1 {
                    assert(dist_sq_spec(p[r].1, pos) <= dist_sq_spec(p[j].1, pos));
                }
            }
            assert forall|j: int| 0 <= j < c implies dist_sq_spec(#[trigger] s[j].1, pos)
                > dist_sq_spec(s[c].1, pos) by {
                assert(dist_sq_spec(p[r].1, pos) <= dist_sq_spec(p[j].1, pos));
            }
        } else {
            assert(c == r);
            assert forall|j: int| 0 <= j < s.len() implies dist_sq_spec(s[c].1, pos)
                <= dist_sq_spec(#[trigger] s[j].1, pos) by {
                if j < s.len() - 1 {
                    assert(dist_sq_spec(p[r].1, pos) <= dist_sq_spec(p[j].1, pos));
                }
            }
            assert forall|j: int| 0 <= j < c implies dist_sq_spec(#[trigger] s[j].1, pos)
                > dist_sq_spec(s[c].1, pos) by {
                assert(dist_sq_spec(p[j].1, pos) > dist_sq_spec(p[r].1, pos));
            }
        }
    }
}

/// Nearest-opponent search: walks the snapshot and returns the handle of
/// the candidate at the smallest Euclidean distance from `position`, the
/// first encountered winning ties; none when the snapshot is empty.
pub fn find_closest_target(targets: &Vec<(u64, Vec3)>, position: Vec3) -> (r: Option<u64>)
    requires
        cand_ok(targets@),
        vec_ok(position),
    ensures
        r == find_closest_spec(targets@, position),
        r is None <==> targets@.len() == 0,
        targets@.len() == 1 ==> r == Option::Some(targets@[0].0),
{
    if targets.len() == 0 {
        return Option::None;
    }
    let mut best_i: usize = 0;
    let mut best_d: u128 = dist_sq(targets[0].1, position);
    let mut i: usize = 1;
    while i < targets.len()
        invariant
            cand_ok(targets@),
            vec_ok(position),
            1 <= i <= targets@.len(),
            0 <= best_i < i,
            best_i as int == closest_idx(targets@.take(i as int), position),
            best_d as int == dist_sq_spec(targets@[best_i as int].1, position),
        decreases targets@.len() - i,
    {
        let d: u128 = dist_sq(targets[i].1, position);
        proof {
            assert(targets@.take(i as int + 1).drop_last() =~= targets@.take(i as int));
        }
        if d < best_d {
            best_i = i;
            best_d = d;
        }
        i = i + 1;
    }
    proof {
        assert(targets@.take(targets@.len() as int) =~= targets@);
    }
    Option::Some(targets[best_i].0)
}

/// What the targeting machine does in one tick: an unlocked aircraft
/// acquires the nearest opponent; a locked one keeps its target.
pub open spec fn targeting_step_spec(
    current: Option<u64>,
    s: Seq<(u64, Vec3)>,
    pos: Vec3,
) -> Option<u64> {
    if current is Some {
        current
    } else {
        find_closest_spec(s, pos)
    }
}

/// One targeting tick for one aircraft. A held target is sticky: it is
/// never re-chosen here, whatever the snapshot holds; only an aircraft
/// without one searches.
pub fn targeting_step(current: Option<u64>, targets: &Vec<(u64, Vec3)>, position: Vec3) -> (r:
    Option<u64>)
    requires
        cand_ok(targets@),
        vec_ok(position),
    ensures
        r == targeting_step_spec(current, targets@, position),
        current is Some ==> r == current,
        current is None && targets@.len() > 0 ==> r is Some,
{
    match current {
        Option::Some(h) => Option::Some(h),
        Option::None => find_closest_target(targets, position),
    }
}

/// Position filed under `h` in the snapshot: the first entry with that
/// handle, or none when the handle is gone from the roster.
pub open spec fn resolve_spec(s: Seq<(u64, Vec3)>, h: u64) -> Option<Vec3>
    decreases s.len(),
{
    if s.len() == 0 {
        Option::None
    } else if s[0].0 == h {
        Option::Some(s[0].1)
    } else {
        resolve_spec(s.subrange(1, s.len() as int), h)
    }
}

/// A handle resolves exactly when some entry of the snapshot carries it.
pub proof fn lemma_resolve_some_iff(s: Seq<(u64, Vec3)>, h: u64)
    ensures
        resolve_spec(s, h) is Some <==> exists|j: int| 0 <= j < s.len() && (#[trigger] s[j].0)
            == h,
    decreases s.len(),
{
    if s.len() > 0 {
        lemma_resolve_some_iff(s.subrange(1, s.len() as int), h);
        if s[0].0 != h {
            let t = s.subrange(1, s.len() as int);
            if resolve_spec(s, h) is Some {
                let j = choose|j: int| 0 <= j < t.len() && (#[trigger] t[j].0) == h;
                assert(s[j + 1].0 == h);
            }
            if exists|j: int| 0 <= j < s.len() && (#[trigger] s[j].0) == h {
                let j = choose|j: int| 0 <= j < s.len() && (#[trigger] s[j].0) == h;
                assert(t[j - 1].0 == h);
            }
        }
    }
}

/// Look a handle up in the snapshot.
pub fn resolve(targets: &Vec<(u64, Vec3)>, handle: u64) -> (r: Option<Vec3>)
    requires
        cand_ok(targets@),
    ensures
        r == resolve_spec(targets@, handle),
        match r {
            Option::Some(p) => vec_ok(p),
            Option::None => true,
        },
{
    proof {
        assert(targets@.subrange(0, targets@.len() as int) =~= targets@);
    }
    let mut i: usize = 0;
    while i < targets.len()
        invariant
            cand_ok(targets@),
            0 <= i <= targets@.len(),
            resolve_spec(targets@, handle) == resolve_spec(
                targets@.subrange(i as int, targets@.len() as int),
                handle,
            ),
        decreases targets@.len() - i,
    {
        proof {
            let t = targets@.subrange(i as int, targets@.len() as int);
            assert(t.subrange(1, t.len() as int) =~= targets@.subrange(
                i as int + 1,
                targets@.len() as int,
            ));
        }
        if targets[i].0 == handle {
            return Option::Some(targets[i].1);
        }
        i = i + 1;
    }
    Option::None
}

} // verus!
