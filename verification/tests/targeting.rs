use flightsim::target::{find_closest_target, resolve, targeting_step};
use flightsim::vec3::Vec3;

fn at(x: i64, y: i64, z: i64) -> Vec3 {
    Vec3 { x, y, z }
}

#[test]
fn empty_candidates_give_no_target() {
    let targets: Vec<(u64, Vec3)> = Vec::new();
    assert_eq!(find_closest_target(&targets, at(0, 0, 0)), None);
}

#[test]
fn single_candidate_wins_regardless_of_distance() {
    let targets: Vec<(u64, Vec3)> = vec![(42, at(1_000_000, -2_000_000, 3_000_000))];
    assert_eq!(find_closest_target(&targets, at(0, 0, 0)), Some(42));
}

#[test]
fn nearest_candidate_wins() {
    let targets: Vec<(u64, Vec3)> = vec![
        (1, at(0, 0, -100_000)),
        (2, at(0, 0, -5000)),
        (3, at(50_000, 0, 0)),
    ];
    assert_eq!(find_closest_target(&targets, at(0, 0, 0)), Some(2));
}

#[test]
fn first_encountered_wins_ties() {
    let targets: Vec<(u64, Vec3)> = vec![(7, at(1000, 0, 0)), (8, at(-1000, 0, 0))];
    assert_eq!(find_closest_target(&targets, at(0, 0, 0)), Some(7));
}

#[test]
fn unlocked_aircraft_acquires() {
    let targets: Vec<(u64, Vec3)> = vec![(5, at(0, 0, -3000)), (6, at(0, 0, -2000))];
    assert_eq!(targeting_step(None, &targets, at(0, 0, 0)), Some(6));
}

#[test]
fn unlocked_aircraft_stays_unlocked_on_empty_roster() {
    let targets: Vec<(u64, Vec3)> = Vec::new();
    assert_eq!(targeting_step(None, &targets, at(0, 0, 0)), None);
}

#[test]
fn locked_target_is_sticky() {
    // the roster still resolves handle 7, and even holds a nearer
    // opponent; the lock is kept all the same
    let targets: Vec<(u64, Vec3)> = vec![(9, at(0, 0, -1000)), (7, at(0, 0, -90_000))];
    assert_eq!(targeting_step(Some(7), &targets, at(0, 0, 0)), Some(7));
}

#[test]
fn resolve_finds_position_by_handle() {
    let targets: Vec<(u64, Vec3)> = vec![(9, at(1, 2, 3)), (7, at(4, 5, 6))];
    assert_eq!(resolve(&targets, 7), Some(at(4, 5, 6)));
    assert_eq!(resolve(&targets, 9), Some(at(1, 2, 3)));
    assert_eq!(resolve(&targets, 8), None);
}
