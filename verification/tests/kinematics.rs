use star_arena::asteroid::Asteroid;
use star_arena::fuel::FuelCell;
use star_arena::geometry::{Body, Position, Velocity};
use star_arena::kinematics::{velocity_system, wrap, Window};
use star_arena::ship::Starship;
use star_arena::world::World;

fn body(x: i64, y: i64, vx: i64, vy: i64) -> Body {
    Body { position: Position { x, y }, velocity: Velocity { x: vx, y: vy } }
}

fn window() -> Window {
    Window { width: 800_000, height: 600_000 }
}

#[test]
fn wrap_past_the_positive_edge_subtracts_the_width() {
    assert_eq!(wrap(405_000, 800_000), -395_000);
    assert_eq!(wrap(400_001, 800_000), -399_999);
    assert_eq!(wrap(1_200_000, 800_000), 400_000);
}

#[test]
fn wrap_past_the_negative_edge_adds_the_width() {
    assert_eq!(wrap(-405_000, 800_000), 395_000);
    assert_eq!(wrap(-400_001, 800_000), 399_999);
    assert_eq!(wrap(-1_200_000, 800_000), -400_000);
}

#[test]
fn wrap_leaves_values_inside_alone() {
    assert_eq!(wrap(0, 800_000), 0);
    assert_eq!(wrap(400_000, 800_000), 400_000);
    assert_eq!(wrap(-400_000, 800_000), -400_000);
    assert_eq!(wrap(123, 800_000), 123);
}

#[test]
fn wrap_takes_off_one_width_only() {
    assert_eq!(wrap(2_000_000, 800_000), 1_200_000);
    assert_eq!(wrap(-2_000_000, 800_000), -1_200_000);
}

#[test]
fn wrap_with_an_odd_width_uses_the_exact_half() {
    assert_eq!(wrap(2, 5), 2);
    assert_eq!(wrap(3, 5), -2);
    assert_eq!(wrap(-2, 5), -2);
    assert_eq!(wrap(-3, 5), 2);
}

#[test]
fn wrap_handles_the_ends_of_the_range() {
    assert_eq!(wrap(i64::MAX, i64::MAX), 0);
    assert_eq!(wrap(i64::MIN, i64::MAX), -1);
    assert_eq!(wrap(i64::MAX, 1), i64::MAX - 1);
    assert_eq!(wrap(i64::MIN, 1), i64::MIN + 1);
}

#[test]
fn entity_at_405_moving_on_wraps_to_minus_395() {
    let mut moving = body(400_000, 0, 5_000, 0);
    moving.advance(1_000, &window());
    assert_eq!(moving.position, Position { x: -395_000, y: 0 });
    assert_eq!(moving.velocity, Velocity { x: 5_000, y: 0 });
    let mut beyond = body(405_000, 0, 1_000, 0);
    beyond.advance(0, &window());
    assert_eq!(beyond.position.x, -395_000);
}

#[test]
fn advance_moves_by_velocity_times_elapsed_time() {
    let mut moving = body(10_000, -20_000, 4_000, -2_000);
    moving.advance(500, &window());
    assert_eq!(moving.position, Position { x: 12_000, y: -21_000 });
    moving.advance(16, &window());
    assert_eq!(moving.position, Position { x: 12_064, y: -21_032 });
}

#[test]
fn advance_wraps_each_axis_on_its_own() {
    let mut moving = body(399_000, -299_000, 2_000, -2_000);
    moving.advance(1_000, &window());
    assert_eq!(moving.position, Position { x: -399_000, y: 299_000 });
    let mut sideways = body(399_000, 100_000, 2_000, 0);
    sideways.advance(1_000, &window());
    assert_eq!(sideways.position, Position { x: -399_000, y: 100_000 });
}

#[test]
fn advance_stays_inside_once_inside() {
    let mut moving = body(-400_000, 300_000, 799_000, -599_000);
    for _ in 0..500 {
        moving.advance(1_000, &window());
        assert!(-400_000 <= moving.position.x && moving.position.x <= 400_000);
        assert!(-300_000 <= moving.position.y && moving.position.y <= 300_000);
    }
}

#[test]
fn repeated_ticks_bring_a_far_entity_inside() {
    let mut far = body(5_000_000, -4_000_000, -100_000, 50_000);
    let mut ticks: u32 = 0;
    while far.position.x > 400_000 || far.position.y < -300_000 {
        far.advance(1_000, &window());
        ticks += 1;
        assert!(ticks <= 7);
    }
    assert_eq!(ticks, 6);
    assert_eq!(far.position, Position { x: 400_000, y: -100_000 });
}

#[test]
fn ticks_faster_than_the_window_never_come_inside() {
    let mut runaway = body(0, 0, 1_600_000, 0);
    for step in 1..50i64 {
        runaway.advance(1_000, &window());
        assert_eq!(runaway.position.x, 800_000 * step);
    }
}

#[test]
fn advance_saturates_at_the_end_of_the_range() {
    let mut moving = body(i64::MAX, i64::MIN, i64::MAX, i64::MIN);
    moving.advance(i64::MAX, &Window { width: 10, height: 10 });
    assert_eq!(moving.position, Position { x: i64::MAX - 10, y: i64::MIN + 10 });
}

#[test]
fn velocity_system_moves_every_kind_of_entity() {
    let mut ship = Starship::new();
    ship.body = body(0, 0, 10_000, 20_000);
    let cell = FuelCell { body: body(395_000, 0, 10_000, 0), capacity: 12_000, has_spawn_children: true };
    let other = FuelCell { body: body(0, -295_000, 0, -10_000), capacity: 13_000, has_spawn_children: false };
    let rock = Asteroid { body: body(50_000, 60_000, 0, 0) };
    let mut world = World { ship: Some(ship), fuel_cells: vec![cell, other], asteroids: vec![rock] };
    velocity_system(&mut world, 1_000, &window());
    let moved = world.ship.unwrap();
    assert_eq!(moved.body, body(10_000, 20_000, 10_000, 20_000));
    assert_eq!(moved.engine, ship.engine);
    assert_eq!(moved.heading, ship.heading);
    assert_eq!(world.fuel_cells.len(), 2);
    assert_eq!(
        world.fuel_cells[0],
        FuelCell { body: body(-395_000, 0, 10_000, 0), capacity: 12_000, has_spawn_children: true }
    );
    assert_eq!(
        world.fuel_cells[1],
        FuelCell { body: body(0, 295_000, 0, -10_000), capacity: 13_000, has_spawn_children: false }
    );
    assert_eq!(world.asteroids, vec![rock]);
}

#[test]
fn velocity_system_without_entities_does_nothing() {
    let mut world = World::new();
    velocity_system(&mut world, 1_000, &window());
    assert!(world.ship.is_none());
    assert!(world.fuel_cells.is_empty());
    assert!(world.asteroids.is_empty());
}

#[test]
fn scatter_puts_points_inside_the_window() {
    let w = window();
    assert_eq!(w.scatter(0, 0), Position { x: -400_000, y: -300_000 });
    assert_eq!(w.scatter(400_000, 300_000), Position { x: 0, y: 0 });
    assert_eq!(w.scatter(799_999, 599_999), Position { x: 399_999, y: 299_999 });
    assert_eq!(w.scatter(800_000, 600_001), Position { x: -400_000, y: -299_999 });
    assert_eq!(w.scatter(u64::MAX, u64::MAX), Position { x: 351_615, y: 51_615 });
    let odd = Window { width: 5, height: 1 };
    assert_eq!(odd.scatter(4, 7), Position { x: 2, y: 0 });
    assert_eq!(odd.scatter(5, 0), Position { x: -2, y: 0 });
}
