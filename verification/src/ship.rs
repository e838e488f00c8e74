//! The ship: steering, the engine and its fuel, and what the ship runs into.

use vstd::prelude::*;
use crate::asteroid::Asteroid;
use crate::fixed::{clamp, clamped, difference, product, sat, scaled, sum, UNIT};
use crate::fuel::FuelCell;
use crate::geometry::{closer_than, within, Body, Position, Velocity};
use crate::world::{World, WorldView};

verus! {

/// Side of the ship's square bound.
pub const SHIP_SIZE: i64 = 32_000;

/// The ship collects a fuel cell whose centre is closer than this to its own:
/// half the ship's size.
pub const COLLECT_RADIUS: i64 = 16_000;

/// The ship is destroyed by an asteroid whose centre is closer than this to
/// its own: the asteroid's radius and half the ship's size.
pub const CRASH_RADIUS: i64 = 48_000;

/// The ship's engine and tank.
#[derive(Clone, Copy, Debug, PartialEq, Eq, Structural)]
pub struct Engine {
    /// Fuel in the tank, between zero and `capacity`.
    pub fuel: i64,
    /// The most the tank holds.
    pub capacity: i64,
    /// Acceleration while firing, and fuel burnt per second of firing.
    pub thrust: i64,
    /// Whether the engine fired during the latest tick.
    pub is_on: bool,
}

/// The player's ship.
#[derive(Clone, Copy, Debug, PartialEq, Eq, Structural)]
pub struct Starship {
    pub body: Body,
    /// Heading in thousandths of a radian, counter-clockwise; zero points along +y.
    pub heading: i64,
    /// Turn rate in thousandths of a radian per second.
    pub rotation_speed: i64,
    pub engine: Engine,
}

/// What the player asks of the ship during one tick.
#[derive(Clone, Copy, Debug, PartialEq, Eq, Structural)]
pub struct Intents {
    pub rotate_left: bool,
    pub rotate_right: bool,
    pub thrust: bool,
}

/// The sine and cosine of a heading, in thousandths.
#[derive(Clone, Copy, Debug, PartialEq, Eq, Structural)]
pub struct Direction {
    pub sin: i64,
    pub cos: i64,
}

impl Engine {
    /// The tank holds between nothing and its capacity.
    pub open spec fn wf(&self) -> bool {
        0 <= self.fuel <= self.capacity
    }

    /// The engine after `amount` of fuel went into the tank: the level rises by
    /// `amount` and is then limited to the tank.
    pub open spec fn refuelled(self, amount: int) -> Engine {
        Engine { fuel: clamped(sat(self.fuel + amount), 0, self.capacity as int) as i64, ..self }
    }

    /// The engine after it fired and burnt `amount` of fuel: the level falls by
    /// `amount` and is then limited to the tank.
    pub open spec fn burnt(self, amount: int) -> Engine {
        Engine {
            fuel: clamped(sat(self.fuel - amount), 0, self.capacity as int) as i64,
            is_on: true,
            ..self
        }
    }

    /// Puts `amount` of fuel into the tank; what the tank cannot hold is lost.
    pub fn refuel(&mut self, amount: i64)
        requires
            old(self).capacity >= 0,
        ensures
            *final(self) == old(self).refuelled(amount as int),
            final(self).wf(),
    {
        self.fuel = clamp(sum(self.fuel, amount), 0, self.capacity);
    }

    /// Fires the engine at the cost of `amount` of fuel.
    pub fn burn(&mut self, amount: i64)
        requires
            old(self).capacity >= 0,
        ensures
            *final(self) == old(self).burnt(amount as int),
            final(self).wf(),
    {
        self.fuel = clamp(difference(self.fuel, amount), 0, self.capacity);
        self.is_on = true;
    }
}

impl Starship {
    /// The ship as it enters the arena: at rest at the origin, heading along
    /// +y, with a full tank of 1000 units, a thrust of 100 units and a turn
    /// rate of one radian per second.
    pub open spec fn launched() -> Starship {
        Starship {
            body: Body { position: Position { x: 0, y: 0 }, velocity: Velocity { x: 0, y: 0 } },
            heading: 0,
            rotation_speed: UNIT,
            engine: Engine { fuel: 1_000_000, capacity: 1_000_000, thrust: 100_000, is_on: false },
        }
    }

    /// The ship after steering for `dt` seconds: turned left if that is asked
    /// for, else right if that is asked for, else as it was.
    pub open spec fn turned(self, left: bool, right: bool, dt: int) -> Starship {
        let angle = scaled(self.rotation_speed as int, dt);
        if left {
            Starship { heading: sat(self.heading + angle) as i64, ..self }
        } else if right {
            Starship { heading: sat(self.heading - angle) as i64, ..self }
        } else {
            self
        }
    }

    /// The ship after the engine's part of a tick of `dt` seconds. With thrust
    /// asked for and fuel in the tank, the engine fires: the velocity grows by
    /// thrust times `dt` along the heading, whose sine and cosine are
    /// `direction`, and as much fuel is burnt. Otherwise the engine is off and
    /// nothing else changes.
    pub open spec fn fired(self, thrust: bool, direction: Direction, dt: int) -> Starship {
        if thrust && self.engine.fuel > 0 {
            let impulse = scaled(self.engine.thrust as int, dt);
            Starship {
                body: Body {
                    position: self.body.position,
                    velocity: Velocity {
                        x: sat(self.body.velocity.x - scaled(impulse, direction.sin as int)) as i64,
                        y: sat(self.body.velocity.y + scaled(impulse, direction.cos as int)) as i64,
                    },
                },
                engine: self.engine.burnt(impulse),
                ..self
            }
        } else {
            Starship { engine: Engine { is_on: false, ..self.engine }, ..self }
        }
    }

    /// The ship as it enters the arena.
    pub fn new() -> (ship: Starship)
        ensures
            ship == Starship::launched(),
            ship.engine.wf(),
    {
        Starship {
            body: Body { position: Position { x: 0, y: 0 }, velocity: Velocity { x: 0, y: 0 } },
            heading: 0,
            rotation_speed: UNIT,
            engine: Engine { fuel: 1_000_000, capacity: 1_000_000, thrust: 100_000, is_on: false },
        }
    }

    /// Steers for `dt` seconds. Left wins over right.
    pub fn rotate(&mut self, left: bool, right: bool, dt: i64)
        ensures
            *final(self) == old(self).turned(left, right, dt as int),
    {
        let angle: i64 = product(self.rotation_speed, dt);
        if left {
            self.heading = sum(self.heading, angle);
        } else if right {
            self.heading = difference(self.heading, angle);
        }
    }

    /// The engine's part of a tick of `dt` seconds.
    pub fn fire(&mut self, thrust: bool, direction: &Direction, dt: i64)
        requires
            old(self).engine.wf(),
        ensures
            *final(self) == old(self).fired(thrust, *direction, dt as int),
            final(self).engine.wf(),
    {
        if thrust && self.engine.fuel > 0 {
            let impulse: i64 = product(self.engine.thrust, dt);
            self.body.velocity.x = difference(self.body.velocity.x, product(impulse, direction.sin));
            self.body.velocity.y = sum(self.body.velocity.y, product(impulse, direction.cos));
            self.engine.burn(impulse);
        } else {
            self.engine.is_on = false;
        }
    }
}

/// The world after its ship, if it has one, has steered for `dt` seconds.
pub open spec fn world_steered(world: WorldView, intents: Intents, dt: int) -> WorldView {
    WorldView {
        ship: match world.ship {
            Some(ship) => Some(ship.turned(intents.rotate_left, intents.rotate_right, dt)),
            None => None,
        },
        ..world
    }
}

/// The world after the engine of its ship, if it has one, has run for `dt`
/// seconds.
pub open spec fn world_fired(
    world: WorldView,
    intents: Intents,
    direction: Direction,
    dt: int,
) -> WorldView {
    WorldView {
        ship: match world.ship {
            Some(ship) => Some(ship.fired(intents.thrust, direction, dt)),
            None => None,
        },
        ..world
    }
}

/// The engine's part of one tick: whether thrust is asked for, the sine and
/// cosine of the heading, and the seconds that the tick lasts.
pub struct Burn {
    pub thrust: bool,
    pub direction: Direction,
    pub dt: int,
}

/// The ship after the engine's parts of the ticks `burns`, in their order.
pub open spec fn fired_through(ship: Starship, burns: Seq<Burn>) -> Starship
    decreases burns.len(),
{
    if burns.len() == 0 {
        ship
    } else {
        let burn = burns.last();
        fired_through(ship, burns.drop_last()).fired(burn.thrust, burn.direction, burn.dt)
    }
}

/// The engine keeps the tank within its limits, for however long it fires.
pub proof fn lemma_firing_keeps_limits(ship: Starship, thrust: bool, direction: Direction, dt: int)
    requires
        ship.engine.wf(),
    ensures
        ship.fired(thrust, direction, dt).engine.wf(),
        ship.fired(thrust, direction, dt).engine.capacity == ship.engine.capacity,
{
}

/// Through any number of ticks, whatever is asked of the engine in each and
/// however long each lasts, the tank stays within its limits.
pub proof fn lemma_fuel_stays_in_tank(ship: Starship, burns: Seq<Burn>)
    requires
        ship.engine.wf(),
    ensures
        fired_through(ship, burns).engine.wf(),
        fired_through(ship, burns).engine.capacity == ship.engine.capacity,
    decreases burns.len(),
{
    if burns.len() > 0 {
        let burn = burns.last();
        lemma_fuel_stays_in_tank(ship, burns.drop_last());
        lemma_firing_keeps_limits(
            fired_through(ship, burns.drop_last()),
            burn.thrust,
            burn.direction,
            burn.dt,
        );
    }
}

/// Puts a new ship into the world, in place of the one it had, if any.
pub fn spawn_ship_system(world: &mut World)
    ensures
        final(world)@ == (WorldView { ship: Some(Starship::launched()), ..old(world)@ }),
        final(world)@.wf(),
{
    world.ship = Some(Starship::new());
}

/// Steers the ship, if there is one, for `dt` seconds.
pub fn rotate_ship_system(world: &mut World, intents: &Intents, dt: i64)
    ensures
        final(world)@ == world_steered(old(world)@, *intents, dt as int),
{
    match world.ship {
        Some(mut ship) => {
            ship.rotate(intents.rotate_left, intents.rotate_right, dt);
            world.ship = Some(ship);
        },
        None => {},
    }
}

/// Runs the engine of the ship, if there is one, for `dt` seconds.
/// `direction` holds the sine and cosine of the ship's heading.
pub fn engine_system(world: &mut World, intents: &Intents, direction: &Direction, dt: i64)
    requires
        old(world)@.wf(),
    ensures
        final(world)@ == world_fired(old(world)@, *intents, *direction, dt as int),
        final(world)@.wf(),
{
    match world.ship {
        Some(mut ship) => {
            ship.fire(intents.thrust, direction, dt);
            world.ship = Some(ship);
        },
        None => {},
    }
}

/// The ship at `position` collects `cell`.
pub open spec fn in_reach(position: Position, cell: FuelCell) -> bool {
    closer_than(position, cell.body.position, COLLECT_RADIUS as int)
}

/// The engine after the ship at `position` has collected what it reaches of
/// `cells`, in their order: each cell in reach adds its capacity to the tank,
/// and the level is limited to the tank after each.
pub open spec fn tank_after(engine: Engine, position: Position, cells: Seq<FuelCell>) -> Engine
    decreases cells.len(),
{
    if cells.len() == 0 {
        engine
    } else {
        let before = tank_after(engine, position, cells.drop_last());
        if in_reach(position, cells.last()) {
            before.refuelled(cells.last().capacity as int)
        } else {
            before
        }
    }
}

/// The ship at `position` is too close to one of `rocks`.
pub open spec fn crashes(position: Position, rocks: Seq<Asteroid>) -> bool {
    exists|k: int|
        0 <= k < rocks.len() && closer_than(
            position,
            (#[trigger] rocks[k]).body.position,
            CRASH_RADIUS as int,
        )
}

/// The world after its ship, if it has one, has collected the fuel cells in
/// its reach: the tank has gained, and the collected cells are gone.
pub open spec fn world_refuelled(world: WorldView) -> WorldView {
    match world.ship {
        Some(ship) => WorldView {
            ship: Some(
                Starship {
                    engine: tank_after(ship.engine, ship.body.position, world.fuel_cells),
                    ..ship
                },
            ),
            fuel_cells: world.fuel_cells.filter(|cell: FuelCell| !in_reach(ship.body.position, cell)),
            ..world
        },
        None => world,
    }
}

/// The ship of `world` is too close to an asteroid.
pub open spec fn ship_crashes(world: WorldView) -> bool {
    match world.ship {
        Some(ship) => crashes(ship.body.position, world.asteroids),
        None => false,
    }
}

/// The world after an asteroid has destroyed its ship, if the ship is too
/// close to one.
pub open spec fn world_crashed(world: WorldView) -> WorldView {
    WorldView {
        ship: if ship_crashes(world) {
            None
        } else {
            world.ship
        },
        ..world
    }
}

/// Collecting keeps the tank within its limits.
pub proof fn lemma_tank_stays_in_limits(engine: Engine, position: Position, cells: Seq<FuelCell>)
    requires
        engine.wf(),
    ensures
        tank_after(engine, position, cells).wf(),
        tank_after(engine, position, cells).capacity == engine.capacity,
        tank_after(engine, position, cells).thrust == engine.thrust,
        tank_after(engine, position, cells).is_on == engine.is_on,
    decreases cells.len(),
{
    if cells.len() > 0 {
        lemma_tank_stays_in_limits(engine, position, cells.drop_last());
    }
}

/// `collected` lists, in rising order, the indices of the fuel cells of
/// `world` that its ship collects: those in its reach, and none without a ship.
pub open spec fn collects(world: WorldView, collected: Seq<usize>) -> bool {
    &&& forall|a: int, b: int| 0 <= a < b < collected.len() ==> collected[a] < collected[b]
    &&& forall|a: int| 0 <= a < collected.len() ==> collected[a] < world.fuel_cells.len()
    &&& forall|k: int|
        0 <= k < world.fuel_cells.len() ==> (collected.contains(k as usize) <==> match world.ship {
            Some(ship) => in_reach(ship.body.position, #[trigger] world.fuel_cells[k]),
            None => false,
        })
}

/// The ship collects every fuel cell in its reach: the tank gains each
/// cell's capacity, up to its own, and the cell leaves the world. The cells
/// that stay keep their order. Returns the indices that the collected cells
/// had before the call, in rising order. Without a ship nothing happens.
pub fn collide_with_fuel_system(world: &mut World) -> (collected: Vec<usize>)
    requires
        old(world)@.wf(),
    ensures
        final(world)@.wf(),
        final(world)@ == world_refuelled(old(world)@),
        collects(old(world)@, collected@),
{
    let mut collected: Vec<usize> = Vec::new();
    let mut ship: Starship = match world.ship {
        Some(ship) => ship,
        None => {
            return collected;
        },
    };
    let position = ship.body.position;
    let ghost engine = ship.engine;
    let ghost stays = |cell: FuelCell| !in_reach(position, cell);
    let count: usize = world.fuel_cells.len();
    let mut kept: Vec<FuelCell> = Vec::new();
    let mut k: usize = 0;
    proof {
        reveal(Seq::filter);
        assert(world.fuel_cells@.take(0) =~= Seq::<FuelCell>::empty());
    }
    while k < count
        invariant
            k <= count,
            count == world.fuel_cells@.len(),
            world.fuel_cells@ == old(world).fuel_cells@,
            old(world).ship == Some(
                Starship { body: ship.body, heading: ship.heading, rotation_speed: ship.rotation_speed, engine },
            ),
            position == ship.body.position,
            engine.wf(),
            stays == |cell: FuelCell| !in_reach(position, cell),
            ship.engine == tank_after(engine, position, world.fuel_cells@.take(k as int)),
            ship.engine.wf(),
            kept@ == world.fuel_cells@.take(k as int).filter(stays),
            forall|m: int|
                0 <= m < k ==> (collected@.contains(m as usize) <==> in_reach(
                    position,
                    #[trigger] world.fuel_cells@[m],
                )),
            forall|a: int, b: int| 0 <= a < b < collected@.len() ==> collected@[a] < collected@[b],
            forall|a: int| 0 <= a < collected@.len() ==> collected@[a] < k,
        decreases count - k,
    {
        let cell: FuelCell = world.fuel_cells[k];
        let ghost seen = world.fuel_cells@.take(k as int);
        let ghost more = world.fuel_cells@.take(k + 1);
        let ghost before = collected@;
        proof {
            reveal(Seq::filter);
            assert(more.drop_last() =~= seen);
            assert(more.last() == cell);
        }
        if within(position, cell.body.position, COLLECT_RADIUS) {
            ship.engine.refuel(cell.capacity);
            collected.push(k);
            proof {
                assert(collected@[before.len() as int] == k);
                assert forall|m: int| 0 <= m < k + 1 implies (collected@.contains(m as usize)
                    <==> in_reach(position, #[trigger] world.fuel_cells@[m])) by {
                    if m < k {
                        if before.contains(m as usize) {
                            let t = choose|t: int| 0 <= t < before.len() && before[t] == m as usize;
                            assert(collected@[t] == m as usize);
                        }
                        if collected@.contains(m as usize) {
                            let t = choose|t: int|
                                0 <= t < collected@.len() && collected@[t] == m as usize;
                            assert(before[t] == m as usize);
                        }
                    }
                }
            }
        } else {
            kept.push(cell);
            proof {
                assert forall|m: int| 0 <= m < k + 1 implies (collected@.contains(m as usize)
                    <==> in_reach(position, #[trigger] world.fuel_cells@[m])) by {
                    if m == k && collected@.contains(m as usize) {
                        let t = choose|t: int|
                            0 <= t < collected@.len() && collected@[t] == m as usize;
                        assert(collected@[t] < k);
                    }
                }
            }
        }
        k = k + 1;
    }
    proof {
        assert(world.fuel_cells@.take(count as int) =~= world.fuel_cells@);
    }
    world.fuel_cells = kept;
    world.ship = Some(ship);
    collected
}

/// The ship is destroyed if the centre of any asteroid is closer than
/// `CRASH_RADIUS` to its own. Returns whether that happened. Without a ship
/// nothing happens.
pub fn collide_with_asteroid_system(world: &mut World) -> (destroyed: bool)
    ensures
        destroyed == ship_crashes(old(world)@),
        final(world)@ == world_crashed(old(world)@),
{
    let position: Position = match world.ship {
        Some(ship) => ship.body.position,
        None => {
            return false;
        },
    };
    let mut k: usize = 0;
    while k < world.asteroids.len()
        invariant
            k <= world.asteroids@.len(),
            world@ == old(world)@,
            old(world).ship matches Some(ship) && ship.body.position == position,
            forall|m: int|
                0 <= m < k ==> !closer_than(
                    position,
                    (#[trigger] world.asteroids@[m]).body.position,
                    CRASH_RADIUS as int,
                ),
        decreases world.asteroids@.len() - k,
    {
        if within(position, world.asteroids[k].body.position, CRASH_RADIUS) {
            world.ship = None;
            return true;
        }
        k = k + 1;
    }
    false
}

/// The frame of the ship's sprite sheet to show next, where the sheet has
/// `frames` frames and `index` is shown now. With the engine off it is frame
/// zero. With the engine on, the frames after the first are shown in turn, one
/// step each time the animation timer has run out.
pub open spec fn sprite_frame(index: int, frames: int, timer_finished: bool, engine_on: bool) -> int {
    if !engine_on {
        0
    } else if timer_finished {
        if (index + 1) % frames == 0 {
            1
        } else {
            (index + 1) % frames
        }
    } else {
        index
    }
}

/// Picks the next frame of the ship's sprite sheet.
pub fn next_sprite_index(index: usize, frames: usize, timer_finished: bool, engine_on: bool) -> (next: usize)
    requires
        frames > 0,
        index < usize::MAX,
    ensures
        next == sprite_frame(index as int, frames as int, timer_finished, engine_on),
{
    if !engine_on {
        0
    } else if timer_finished {
        let step: usize = (index + 1) % frames;
        if step == 0 {
            1
        } else {
            step
        }
    } else {
        index
    }
}

} // verus!
