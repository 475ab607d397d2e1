use fleet_core::geom::{intersect_segment_circle, check_moving_collision};
use fleet_core::entities::{isqrt64, distance_sq, distance_fp, Position};

const FP: i64 = 10_000;

#[test]
fn segment_hits_circle_at_own_midpoint() {
    // circle centred on the segment's midpoint always intersects,
    // whatever the clearance
    assert!(intersect_segment_circle(0, 0, 10 * FP, 0, 5 * FP, 0, 1, 0));
    assert!(intersect_segment_circle(0, 0, 10 * FP, 0, 5 * FP, 0, 6 * FP, 0));
    assert!(intersect_segment_circle(
        2 * FP, 3 * FP, 8 * FP, 7 * FP, 5 * FP, 5 * FP, 1, 1
    ));
}

#[test]
fn segment_misses_far_circle() {
    // a circle farther from every point of the segment than its
    // clearance never intersects
    assert!(!intersect_segment_circle(0, 0, 10 * FP, 0, 5 * FP, 50 * FP, 2 * FP, FP / 2));
    assert!(!intersect_segment_circle(0, 0, 10 * FP, 0, 100 * FP, 100 * FP, 5 * FP, 0));
}

#[test]
fn segment_endpoint_cases() {
    // degenerate segment: a point-to-circle distance test
    assert!(intersect_segment_circle(5 * FP, 5 * FP, 5 * FP, 5 * FP, 6 * FP, 5 * FP, 2 * FP, 0));
    assert!(!intersect_segment_circle(5 * FP, 5 * FP, 5 * FP, 5 * FP, 10 * FP, 5 * FP, 2 * FP, 0));
    // circle just past the far endpoint
    assert!(intersect_segment_circle(0, 0, 10 * FP, 0, 11 * FP, 0, 2 * FP, 0));
    // circle behind the start
    assert!(!intersect_segment_circle(0, 0, 10 * FP, 0, -5 * FP, 0, 2 * FP, 0));
}

#[test]
fn moving_collision_head_on() {
    // two ships flying straight at each other collide during the turn
    let hit = check_moving_collision(
        0, 0, 5 * FP, 0,
        10 * FP, 0, -5 * FP, 0,
        FP,
    );
    assert!(hit);
}

#[test]
fn moving_collision_parallel_far_apart() {
    let hit = check_moving_collision(
        0, 0, 5 * FP, 0,
        0, 50 * FP, 5 * FP, 0,
        FP,
    );
    assert!(!hit);
}

#[test]
fn moving_collision_static_overlap() {
    // no relative velocity: the static distance test decides
    assert!(check_moving_collision(0, 0, 0, 0, FP, 0, 0, 0, 2 * FP));
    assert!(!check_moving_collision(0, 0, 0, 0, 10 * FP, 0, 0, 0, 2 * FP));
    // same velocities cancel out
    assert!(check_moving_collision(0, 0, 3 * FP, 0, FP, 0, 3 * FP, 0, 2 * FP));
}

#[test]
fn moving_collision_is_time_symmetric() {
    // swapping the two obstacles never changes the answer
    let cases: [(i64, i64, i64, i64, i64, i64, i64, i64, i64); 4] = [
        (0, 0, 5 * FP, 0, 10 * FP, 0, -5 * FP, 0, FP),
        (0, 0, 0, 0, 3 * FP, 4 * FP, -FP, -FP, 2 * FP),
        (2 * FP, 2 * FP, FP, 0, 9 * FP, 2 * FP, 0, 0, FP),
        (0, 0, 7 * FP, 0, 100 * FP, 100 * FP, 0, 0, 5 * FP),
    ];
    for (px, py, vx, vy, qx, qy, ux, uy, rr) in cases {
        let a = check_moving_collision(px, py, vx, vy, qx, qy, ux, uy, rr);
        let b = check_moving_collision(qx, qy, ux, uy, px, py, vx, vy, rr);
        assert_eq!(a, b);
    }
}

#[test]
fn integer_square_root() {
    assert_eq!(isqrt64(0), 0);
    assert_eq!(isqrt64(1), 1);
    assert_eq!(isqrt64(3), 1);
    assert_eq!(isqrt64(4), 2);
    assert_eq!(isqrt64(99), 9);
    assert_eq!(isqrt64(100), 10);
    assert_eq!(isqrt64(1_000_000_000_000), 1_000_000);
}

#[test]
fn distances() {
    let a = Position(0, 0);
    let b = Position(3 * FP, 4 * FP);
    assert_eq!(distance_sq(a, b), 25 * FP * FP);
    assert_eq!(distance_fp(a, b), 5 * FP);
}
