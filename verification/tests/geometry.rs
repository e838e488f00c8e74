use star_arena::geometry::{collide, within, Position, Velocity, MAX_DRIFT};
use star_arena::random::RandomSource;

fn at(x: i64, y: i64) -> Position {
    Position { x, y }
}

#[test]
fn squares_that_share_interior_points_collide() {
    assert!(collide(at(0, 0), 8_000, at(0, 0), 8_000));
    assert!(collide(at(0, 0), 8_000, at(7_999, 0), 8_000));
    assert!(collide(at(0, 0), 8_000, at(-7_999, 7_999), 8_000));
    assert!(collide(at(100_000, -50_000), 8_000, at(104_000, -46_000), 8_000));
}

#[test]
fn squares_that_touch_along_an_edge_do_not_collide() {
    assert!(!collide(at(0, 0), 8_000, at(8_000, 0), 8_000));
    assert!(!collide(at(0, 0), 8_000, at(-8_000, 0), 8_000));
    assert!(!collide(at(0, 0), 8_000, at(0, 8_000), 8_000));
    assert!(!collide(at(0, 0), 8_000, at(0, -8_000), 8_000));
}

#[test]
fn squares_apart_on_one_axis_do_not_collide() {
    assert!(!collide(at(0, 0), 8_000, at(20_000, 0), 8_000));
    assert!(!collide(at(0, 0), 8_000, at(0, 20_000), 8_000));
    assert!(!collide(at(0, 0), 8_000, at(7_999, 8_000), 8_000));
}

#[test]
fn squares_of_different_sizes_collide_by_their_half_sizes() {
    assert!(collide(at(0, 0), 10_000, at(7_999, 0), 6_000));
    assert!(!collide(at(0, 0), 10_000, at(8_000, 0), 6_000));
    assert!(collide(at(0, 0), 3, at(2, 0), 2));
    assert!(!collide(at(0, 0), 3, at(3, 0), 2));
    assert!(!collide(at(0, 0), 0, at(0, 0), 0));
}

#[test]
fn collide_handles_the_ends_of_the_range() {
    assert!(!collide(at(i64::MIN, i64::MIN), i64::MAX, at(i64::MAX, i64::MAX), i64::MAX));
    assert!(collide(at(i64::MAX, i64::MAX), 1, at(i64::MAX, i64::MAX), 1));
    assert!(!collide(at(0, 0), i64::MIN, at(0, 0), i64::MIN));
}

#[test]
fn within_compares_the_euclidean_distance() {
    assert!(within(at(0, 0), at(3_000, 4_000), 5_001));
    assert!(!within(at(0, 0), at(3_000, 4_000), 5_000));
    assert!(!within(at(0, 0), at(3_000, 4_000), 4_999));
    assert!(within(at(-1_000, -1_000), at(2_000, 3_000), 5_001));
    assert!(within(at(0, 0), at(0, 0), 1));
}

#[test]
fn within_is_false_for_a_radius_that_is_not_positive() {
    assert!(!within(at(0, 0), at(0, 0), 0));
    assert!(!within(at(0, 0), at(0, 0), -5));
}

#[test]
fn within_handles_the_ends_of_the_range() {
    assert!(!within(at(i64::MIN, i64::MIN), at(i64::MAX, i64::MAX), i64::MAX));
    assert!(within(at(i64::MAX, i64::MIN), at(i64::MAX, i64::MIN), i64::MAX));
    assert!(within(at(0, 0), at(i64::MAX - 1, 0), i64::MAX));
    assert!(!within(at(0, 0), at(i64::MAX - 1, i64::MAX - 1), i64::MAX));
    assert!(!within(at(0, 0), at(i64::MAX, 0), i64::MAX));
}

#[test]
fn drift_is_taken_from_the_draws() {
    assert_eq!(MAX_DRIFT, 20_000);
    assert_eq!(Velocity::drifting(0, 0), Velocity { x: -20_000, y: -20_000 });
    assert_eq!(Velocity::drifting(20_000, 39_999), Velocity { x: 0, y: 19_999 });
    assert_eq!(Velocity::drifting(40_000, 40_001), Velocity { x: -20_000, y: -19_999 });
    assert_eq!(Velocity::drifting(u64::MAX, 24_000), Velocity { x: 11_615, y: 4_000 });
}

#[test]
fn rand_takes_two_draws_x_first() {
    let mut source = RandomSource::scripted(vec![24_000, 18_000, 7]);
    assert_eq!(Velocity::rand(&mut source), Velocity { x: 4_000, y: -2_000 });
    assert_eq!(source.draw(), 7);
}

#[test]
fn rand_from_entropy_stays_below_the_drift_limit() {
    let mut source = RandomSource::entropy();
    for _ in 0..200 {
        let velocity = Velocity::rand(&mut source);
        assert!(-MAX_DRIFT <= velocity.x && velocity.x < MAX_DRIFT);
        assert!(-MAX_DRIFT <= velocity.y && velocity.y < MAX_DRIFT);
    }
}
