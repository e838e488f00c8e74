//! Motion on the torus: positions advance by velocity and wrap at the window's
//! edges.

use vstd::prelude::*;
use crate::fixed::{product, sat, saturate, scaled, sum};
use crate::geometry::{Body, Position};
use crate::asteroid::Asteroid;
use crate::fuel::FuelCell;
use crate::ship::Starship;
use crate::world::{World, WorldView};

verus! {

/// The visible window, centred on the origin.
#[derive(Clone, Copy, Debug, PartialEq, Eq, Structural)]
pub struct Window {
    pub width: i64,
    pub height: i64,
}

/// One coordinate of a random point on a window side of length `extent`,
/// from one random draw: at least `-(extent / 2)` and less than
/// `extent - extent / 2`.
pub open spec fn scattered(draw: u64, extent: int) -> int {
    draw as int % extent - extent / 2
}

impl Window {
    /// The window has an interior.
    pub open spec fn wf(&self) -> bool {
        self.width > 0 && self.height > 0
    }

    /// The point of the window that two random draws give.
    pub open spec fn random_point(&self, x_draw: u64, y_draw: u64) -> Position {
        Position {
            x: scattered(x_draw, self.width as int) as i64,
            y: scattered(y_draw, self.height as int) as i64,
        }
    }

    /// The point of the window that two random draws give.
    pub fn scatter(&self, x_draw: u64, y_draw: u64) -> (point: Position)
        requires
            self.wf(),
        ensures
            point == self.random_point(x_draw, y_draw),
            inside(point.x as int, self.width as int),
            inside(point.y as int, self.height as int),
    {
        Position {
            x: (x_draw % (self.width as u64)) as i64 - self.width / 2,
            y: (y_draw % (self.height as u64)) as i64 - self.height / 2,
        }
    }
}

/// `x` lies between `-extent / 2` and `extent / 2`, the ends included.
pub open spec fn inside(x: int, extent: int) -> bool {
    -extent <= 2 * x <= extent
}

/// One coordinate after the wrap: a value beyond `extent / 2` comes back in
/// from the other side, one `extent` lower; a value beyond `-extent / 2`, one
/// `extent` higher. A value between the two stays.
pub open spec fn wrapped(x: int, extent: int) -> int {
    if 2 * x < -extent {
        sat(x + extent)
    } else if 2 * x > extent {
        sat(x - extent)
    } else {
        x
    }
}

/// One coordinate after a tick of `dt` seconds at speed `v`: moved, then wrapped.
pub open spec fn axis_after(x: int, v: int, dt: int, extent: int) -> int {
    wrapped(sat(x + scaled(v, dt)), extent)
}

/// A body after a tick of `dt` seconds in `window`. Its velocity is unchanged.
pub open spec fn drifted(body: Body, dt: int, window: Window) -> Body {
    Body {
        position: Position {
            x: axis_after(body.position.x as int, body.velocity.x as int, dt, window.width as int) as i64,
            y: axis_after(body.position.y as int, body.velocity.y as int, dt, window.height as int) as i64,
        },
        velocity: body.velocity,
    }
}

/// The world after every body in it has moved for `dt` seconds and wrapped
/// into `window`. Nothing but positions changes.
pub open spec fn world_drifted(world: WorldView, dt: int, window: Window) -> WorldView {
    WorldView {
        ship: match world.ship {
            Some(ship) => Some(Starship { body: drifted(ship.body, dt, window), ..ship }),
            None => None,
        },
        fuel_cells: world.fuel_cells.map_values(
            |cell: FuelCell| FuelCell { body: drifted(cell.body, dt, window), ..cell },
        ),
        asteroids: world.asteroids.map_values(
            |rock: Asteroid| Asteroid { body: drifted(rock.body, dt, window) },
        ),
    }
}

/// Wraps one coordinate into a window side of length `extent`.
pub fn wrap(x: i64, extent: i64) -> (r: i64)
    ensures
        r == wrapped(x as int, extent as int),
{
    let twice: i128 = 2 * (x as i128);
    let side: i128 = extent as i128;
    if twice < -side {
        saturate(x as i128 + side)
    } else if twice > side {
        saturate(x as i128 - side)
    } else {
        x
    }
}

impl Body {
    /// Moves the body by its velocity for `dt` seconds and wraps it into `window`.
    pub fn advance(&mut self, dt: i64, window: &Window)
        ensures
            *final(self) == drifted(*old(self), dt as int, *window),
    {
        self.position.x = wrap(sum(self.position.x, product(self.velocity.x, dt)), window.width);
        self.position.y = wrap(sum(self.position.y, product(self.velocity.y, dt)), window.height);
    }
}

/// Moves every entity by its velocity for `dt` seconds and wraps it into
/// `window`: the ship, each fuel cell and each asteroid.
pub fn velocity_system(world: &mut World, dt: i64, window: &Window)
    ensures
        final(world)@ == world_drifted(old(world)@, dt as int, *window),
{
    match world.ship {
        Some(mut ship) => {
            ship.body.advance(dt, window);
            world.ship = Some(ship);
        },
        None => {},
    }
    let cells: usize = world.fuel_cells.len();
    let mut k: usize = 0;
    while k < cells
        invariant
            k <= cells,
            cells == old(world).fuel_cells@.len(),
            world.fuel_cells@.len() == cells,
            world.ship == world_drifted(old(world)@, dt as int, *window).ship,
            world.asteroids@ == old(world).asteroids@,
            forall|m: int|
                0 <= m < k ==> #[trigger] world.fuel_cells@[m] == world_drifted(
                    old(world)@,
                    dt as int,
                    *window,
                ).fuel_cells[m],
            forall|m: int| k <= m < cells ==> #[trigger] world.fuel_cells@[m] == old(world).fuel_cells@[m],
        decreases cells - k,
    {
        world.fuel_cells[k].body.advance(dt, window);
        k = k + 1;
    }
    let rocks: usize = world.asteroids.len();
    let mut r: usize = 0;
    while r < rocks
        invariant
            r <= rocks,
            rocks == old(world).asteroids@.len(),
            world.asteroids@.len() == rocks,
            world.ship == world_drifted(old(world)@, dt as int, *window).ship,
            world.fuel_cells@ =~= world_drifted(old(world)@, dt as int, *window).fuel_cells,
            forall|m: int|
                0 <= m < r ==> #[trigger] world.asteroids@[m] == world_drifted(
                    old(world)@,
                    dt as int,
                    *window,
                ).asteroids[m],
            forall|m: int| r <= m < rocks ==> #[trigger] world.asteroids@[m] == old(world).asteroids@[m],
        decreases rocks - r,
    {
        world.asteroids[r].body.advance(dt, window);
        r = r + 1;
    }
    assert(world.asteroids@ =~= world_drifted(old(world)@, dt as int, *window).asteroids);
}

/// Twice the distance by which `x` lies beyond the window side of length
/// `extent`; zero for a value inside.
pub open spec fn excess(x: int, extent: int) -> int {
    if 2 * x > extent {
        2 * x - extent
    } else if 2 * x < -extent {
        -extent - 2 * x
    } else {
        0
    }
}

/// The size of `v`.
pub open spec fn magnitude(v: int) -> int {
    if v < 0 {
        -v
    } else {
        v
    }
}

/// One coordinate after `ticks` ticks of `dt` seconds each at speed `v`.
pub open spec fn axis_after_ticks(x: int, v: int, dt: int, extent: int, ticks: nat) -> int
    decreases ticks,
{
    if ticks == 0 {
        x
    } else {
        axis_after_ticks(axis_after(x, v, dt, extent), v, dt, extent, (ticks - 1) as nat)
    }
}

/// The body's position lies in `window`.
pub open spec fn body_inside(body: Body, window: Window) -> bool {
    inside(body.position.x as int, window.width as int) && inside(
        body.position.y as int,
        window.height as int,
    )
}

/// The tick of `dt` seconds moves `body` by no more than one side of `window`
/// along each axis.
pub open spec fn calm(body: Body, dt: int, window: Window) -> bool {
    magnitude(scaled(body.velocity.x as int, dt)) <= window.width && magnitude(
        scaled(body.velocity.y as int, dt),
    ) <= window.height
}

/// `holds` is true of the body of every entity of `world`.
pub open spec fn every_body(world: WorldView, holds: spec_fn(Body) -> bool) -> bool {
    &&& world.ship matches Some(ship) ==> holds(ship.body)
    &&& forall|k: int| 0 <= k < world.fuel_cells.len() ==> holds((#[trigger] world.fuel_cells[k]).body)
    &&& forall|k: int| 0 <= k < world.asteroids.len() ==> holds((#[trigger] world.asteroids[k]).body)
}

/// One wrap brings a coordinate inside exactly when it lies no further than
/// one window side beyond the window.
pub proof fn lemma_wrap_lands_inside(x: i64, extent: i64)
    requires
        extent > 0,
    ensures
        inside(wrapped(x as int, extent as int), extent as int) <==> -3 * extent <= 2 * x <= 3
            * extent,
{
}

/// A coordinate inside the window is inside after a tick too, as long as the
/// tick moves it by no more than one window side.
pub proof fn lemma_tick_stays_inside(x: i64, v: i64, dt: i64, extent: i64)
    requires
        extent > 0,
        inside(x as int, extent as int),
        magnitude(scaled(v as int, dt as int)) <= extent,
    ensures
        inside(axis_after(x as int, v as int, dt as int, extent as int), extent as int),
{
}

/// A body in the window is in the window after a tick too, as long as the
/// tick moves it by no more than one window side along each axis.
pub proof fn lemma_body_stays_inside(body: Body, dt: i64, window: Window)
    requires
        window.wf(),
        body_inside(body, window),
        calm(body, dt as int, window),
    ensures
        body_inside(drifted(body, dt as int, window), window),
{
    lemma_tick_stays_inside(body.position.x, body.velocity.x, dt, window.width);
    lemma_tick_stays_inside(body.position.y, body.velocity.y, dt, window.height);
}

/// Where every entity is in the window, and none moves by more than one
/// window side in a tick, every entity is in the window after the tick.
pub proof fn lemma_world_stays_inside(world: WorldView, dt: i64, window: Window)
    requires
        window.wf(),
        every_body(world, |body: Body| body_inside(body, window)),
        every_body(world, |body: Body| calm(body, dt as int, window)),
    ensures
        every_body(world_drifted(world, dt as int, window), |body: Body| body_inside(body, window)),
{
    let after = world_drifted(world, dt as int, window);
    match world.ship {
        Some(ship) => {
            lemma_body_stays_inside(ship.body, dt, window);
        },
        None => {},
    }
    assert forall|k: int| 0 <= k < after.fuel_cells.len() implies body_inside(
        (#[trigger] after.fuel_cells[k]).body,
        window,
    ) by {
        lemma_body_stays_inside(world.fuel_cells[k].body, dt, window);
    }
    assert forall|k: int| 0 <= k < after.asteroids.len() implies body_inside(
        (#[trigger] after.asteroids[k]).body,
        window,
    ) by {
        lemma_body_stays_inside(world.asteroids[k].body, dt, window);
    }
}

/// Wherever a coordinate starts, enough ticks bring it inside the window, as
/// long as each tick moves it by less than one window side: every tick
/// outside takes at least the difference off the distance to the window.
pub proof fn lemma_ticks_reach_inside(x: i64, v: i64, dt: i64, extent: i64, ticks: nat)
    requires
        extent > 0,
        magnitude(scaled(v as int, dt as int)) < extent,
        ticks * (2 * (extent - magnitude(scaled(v as int, dt as int)))) >= excess(
            x as int,
            extent as int,
        ),
    ensures
        inside(axis_after_ticks(x as int, v as int, dt as int, extent as int, ticks), extent as int),
    decreases ticks,
{
    let gain = 2 * (extent - magnitude(scaled(v as int, dt as int)));
    if ticks > 0 {
        let next = axis_after(x as int, v as int, dt as int, extent as int);
        assert(excess(next, extent as int) <= excess(x as int, extent as int) - gain || excess(
            next,
            extent as int,
        ) == 0);
        assert((ticks - 1) * gain == ticks * gain - gain) by (nonlinear_arith);
        assert((ticks - 1) * gain >= 0) by (nonlinear_arith)
            requires
                ticks >= 1,
                gain > 0,
        ;
        assert(i64::MIN <= next <= i64::MAX);
        lemma_ticks_reach_inside(next as i64, v, dt, extent, (ticks - 1) as nat);
    } else {
        assert(ticks * gain == 0) by (nonlinear_arith)
            requires
                ticks == 0,
        ;
    }
}

} // verus!
