//! The entity set: at most one ship, the fuel cells and the asteroids.

use vstd::prelude::*;
use crate::asteroid::{spawn_asteroids_system, strewn, Asteroid, INITIAL_ASTEROIDS};
use crate::fuel::{
    after_collisions, fuel_cells_collision_system, lemma_marks_are_kept, spawn_fuel_cells_system,
    spawns, stocked_cells, touched, world_merged, FuelCell, DRAWS_PER_CELL, INITIAL_CELLS,
};
use crate::geometry::Body;
use crate::kinematics::{velocity_system, world_drifted, Window};
use crate::random::{lemma_yields_append, yields, RandomSource};
use crate::ship::{
    collects, collide_with_asteroid_system, collide_with_fuel_system, engine_system, in_reach,
    rotate_ship_system, ship_crashes, spawn_ship_system, world_crashed, world_fired,
    world_refuelled, world_steered, Direction, Intents, Starship,
};

verus! {

/// Everything that lives in the arena. Entities are known by their kind and
/// their index in the collection of that kind.
#[derive(Debug)]
pub struct World {
    /// The ship, until an asteroid destroys it.
    pub ship: Option<Starship>,
    pub fuel_cells: Vec<FuelCell>,
    pub asteroids: Vec<Asteroid>,
}

/// The world as a value: the ship, if there is one, and the fuel cells and
/// asteroids in the order of their collections.
pub struct WorldView {
    pub ship: Option<Starship>,
    pub fuel_cells: Seq<FuelCell>,
    pub asteroids: Seq<Asteroid>,
}

impl View for World {
    type V = WorldView;

    open spec fn view(&self) -> WorldView {
        WorldView { ship: self.ship, fuel_cells: self.fuel_cells@, asteroids: self.asteroids@ }
    }
}

impl WorldView {
    /// The ship's tank is within its limits, if there is a ship.
    pub open spec fn wf(&self) -> bool {
        self.ship matches Some(ship) ==> ship.engine.wf()
    }
}

/// The kinds of entity.
#[derive(Clone, Copy, Debug, PartialEq, Eq, Structural)]
pub enum EntityKind {
    Ship,
    FuelCell,
    Asteroid,
}

/// One change of the entity set, for whoever presents the world.
#[derive(Clone, Copy, Debug, PartialEq, Eq, Structural)]
pub enum Record {
    /// An entity of this kind has entered the world, behind the others of its
    /// kind. Only a fuel cell has a capacity.
    Created { kind: EntityKind, body: Body, capacity: Option<i64> },
    /// The entity of this kind that stood at `index` among those of its kind
    /// has left the world.
    Destroyed { kind: EntityKind, index: usize },
}

/// The record of the creation of `cell`.
pub open spec fn cell_created(cell: FuelCell) -> Record {
    Record::Created { kind: EntityKind::FuelCell, body: cell.body, capacity: Some(cell.capacity) }
}

/// The record of the destruction of the fuel cell at `index`.
pub open spec fn cell_destroyed(index: usize) -> Record {
    Record::Destroyed { kind: EntityKind::FuelCell, index }
}

/// The record of the ship's destruction, if `destroyed`.
pub open spec fn ship_lost(destroyed: bool) -> Seq<Record> {
    if destroyed {
        seq![Record::Destroyed { kind: EntityKind::Ship, index: 0 }]
    } else {
        Seq::empty()
    }
}

/// What one tick did to the entity set, for whoever presents the world.
#[derive(Debug)]
pub struct TickReport {
    /// The fuel cells that the tick spawned, in the order in which they joined
    /// the world's fuel cells, behind those that were there.
    pub spawned: Vec<FuelCell>,
    /// The fuel cells that the ship collected: their indices among the
    /// world's fuel cells as they stood when the spawned cells had joined, in
    /// rising order.
    pub collected: Vec<usize>,
    /// Whether an asteroid destroyed the ship.
    pub ship_destroyed: bool,
}

impl TickReport {
    /// The report as records, in the order of the events: the creation of
    /// each spawned fuel cell, then the destruction of each collected fuel
    /// cell, then the ship's destruction if it happened.
    pub open spec fn events(&self) -> Seq<Record> {
        self.spawned@.map_values(|cell: FuelCell| cell_created(cell)) + self.collected@.map_values(
            |index: usize| cell_destroyed(index),
        ) + ship_lost(self.ship_destroyed)
    }

    /// The report as records, in the order of the events.
    pub fn records(&self) -> (records: Vec<Record>)
        ensures
            records@ == self.events(),
    {
        let mut records: Vec<Record> = Vec::new();
        let mut k: usize = 0;
        while k < self.spawned.len()
            invariant
                k <= self.spawned@.len(),
                records@ == self.spawned@.take(k as int).map_values(
                    |cell: FuelCell| cell_created(cell),
                ),
            decreases self.spawned@.len() - k,
        {
            let cell: FuelCell = self.spawned[k];
            records.push(
                Record::Created {
                    kind: EntityKind::FuelCell,
                    body: cell.body,
                    capacity: Some(cell.capacity),
                },
            );
            k = k + 1;
        }
        assert(self.spawned@.take(k as int) =~= self.spawned@);
        let ghost created = records@;
        let mut m: usize = 0;
        while m < self.collected.len()
            invariant
                m <= self.collected@.len(),
                records@ == created + self.collected@.take(m as int).map_values(
                    |index: usize| cell_destroyed(index),
                ),
            decreases self.collected@.len() - m,
        {
            records.push(Record::Destroyed { kind: EntityKind::FuelCell, index: self.collected[m] });
            m = m + 1;
        }
        assert(self.collected@.take(m as int) =~= self.collected@);
        if self.ship_destroyed {
            records.push(Record::Destroyed { kind: EntityKind::Ship, index: 0 });
        }
        assert(records@ =~= self.events());
        records
    }
}

/// The world before the tick's collisions: the ship has steered, its engine
/// has run with `direction` for its heading, and every body has moved.
pub open spec fn world_moved(
    world: WorldView,
    intents: Intents,
    direction: Direction,
    dt: int,
    window: Window,
) -> WorldView {
    world_drifted(world_fired(world_steered(world, intents, dt), intents, direction, dt), dt, window)
}

/// The world after a whole tick in which the fuel cells' collisions spawned
/// `children`: moved, merged, then what the ship collects, then what an
/// asteroid destroys.
pub open spec fn world_ticked(
    world: WorldView,
    intents: Intents,
    direction: Direction,
    dt: int,
    window: Window,
    children: Seq<FuelCell>,
) -> WorldView {
    world_crashed(
        world_refuelled(world_merged(world_moved(world, intents, direction, dt, window), children)),
    )
}

/// `cell` is what a tick has made of one of the fuel cells of `world`: it has
/// that cell's capacity, and that cell's mark if the mark was set.
pub open spec fn descends(world: WorldView, cell: FuelCell) -> bool {
    exists|k: int|
        0 <= k < world.fuel_cells.len() && cell.capacity == (#[trigger] world.fuel_cells[k]).capacity
            && (world.fuel_cells[k].has_spawn_children ==> cell.has_spawn_children)
}

/// No tick takes a mark back. Every fuel cell of the world after a tick is
/// one of the children that the tick spawned, or is what the tick has made of
/// a cell that was there before: with the same capacity, and marked if that
/// cell was marked.
pub proof fn lemma_tick_keeps_marks(
    world: WorldView,
    intents: Intents,
    direction: Direction,
    dt: int,
    window: Window,
    children: Seq<FuelCell>,
    index: int,
)
    requires
        0 <= index < world_ticked(world, intents, direction, dt, window, children).fuel_cells.len(),
    ensures
        children.contains(
            world_ticked(world, intents, direction, dt, window, children).fuel_cells[index],
        ) || descends(
            world,
            world_ticked(world, intents, direction, dt, window, children).fuel_cells[index],
        ),
{
    let moved = world_moved(world, intents, direction, dt, window);
    let merged = world_merged(moved, children);
    let fed = world_refuelled(merged);
    let cell = world_ticked(world, intents, direction, dt, window, children).fuel_cells[index];
    assert(fed.fuel_cells.contains(cell));
    match merged.ship {
        Some(ship) => {
            merged.fuel_cells.lemma_filter_contains_rev(
                |cell: FuelCell| !in_reach(ship.body.position, cell),
                cell,
            );
        },
        None => {},
    }
    assert(merged.fuel_cells.contains(cell));
    let at = choose|at: int| 0 <= at < merged.fuel_cells.len() && merged.fuel_cells[at] == cell;
    let after = after_collisions(moved.fuel_cells);
    lemma_marks_are_kept(moved.fuel_cells);
    if at < after.cells.len() {
        assert(touched(moved.fuel_cells[at], after.cells[at]));
        assert(moved.fuel_cells[at].capacity == world.fuel_cells[at].capacity);
        assert(world.fuel_cells[at].has_spawn_children ==> cell.has_spawn_children);
    } else {
        assert(children[at - after.cells.len()] == cell);
    }
}

impl World {
    /// A world without entities.
    pub fn new() -> (world: World)
        ensures
            world@ == (WorldView { ship: None, fuel_cells: Seq::empty(), asteroids: Seq::empty() }),
    {
        World { ship: None, fuel_cells: Vec::new(), asteroids: Vec::new() }
    }

    /// A world at the start of play: the ship, then `INITIAL_CELLS` fuel cells
    /// scattered over `window`, then `INITIAL_ASTEROIDS` asteroids strewn over
    /// their field. The fuel cells take their draws before the asteroids.
    pub fn populated(window: &Window, source: &mut RandomSource) -> (world: World)
        requires
            window.wf(),
        ensures
            world@.wf(),
            exists|draws: Seq<u64>|
                {
                    &&& #[trigger] yields(old(source).pending(), final(source).pending(), draws)
                    &&& draws.len() == INITIAL_CELLS * DRAWS_PER_CELL + 2 * INITIAL_ASTEROIDS
                    &&& world@ == (WorldView {
                        ship: Some(Starship::launched()),
                        fuel_cells: stocked_cells(
                            *window,
                            draws.take((INITIAL_CELLS * DRAWS_PER_CELL) as int),
                        ),
                        asteroids: strewn(draws.skip((INITIAL_CELLS * DRAWS_PER_CELL) as int)),
                    })
                },
    {
        let mut world = World::new();
        spawn_ship_system(&mut world);
        let ghost start = source.pending();
        spawn_fuel_cells_system(&mut world, window, source);
        let ghost middle = source.pending();
        let ghost stocked = world@;
        spawn_asteroids_system(&mut world, source);
        proof {
            let first = choose|draws: Seq<u64>|
                {
                    &&& #[trigger] yields(start, middle, draws)
                    &&& draws.len() == INITIAL_CELLS * DRAWS_PER_CELL
                    &&& stocked == (WorldView {
                        fuel_cells: Seq::<FuelCell>::empty() + stocked_cells(*window, draws),
                        ..stocked
                    })
                };
            let second = choose|draws: Seq<u64>|
                {
                    &&& #[trigger] yields(middle, source.pending(), draws)
                    &&& draws.len() == 2 * INITIAL_ASTEROIDS
                    &&& world@ == (WorldView {
                        asteroids: Seq::<Asteroid>::empty() + strewn(draws),
                        ..stocked
                    })
                };
            let all = first + second;
            lemma_yields_append(start, middle, source.pending(), first, second);
            assert(all.take((INITIAL_CELLS * DRAWS_PER_CELL) as int) =~= first);
            assert(all.skip((INITIAL_CELLS * DRAWS_PER_CELL) as int) =~= second);
            assert(world@.fuel_cells =~= stocked_cells(*window, first));
            assert(world@.asteroids =~= strewn(second));
        }
        world
    }

    /// The creation of every entity of the world: the ship, then the fuel
    /// cells, then the asteroids, each kind in the order of its collection.
    pub open spec fn census(world: WorldView) -> Seq<Record> {
        (match world.ship {
            Some(ship) => seq![
                Record::Created { kind: EntityKind::Ship, body: ship.body, capacity: None },
            ],
            None => Seq::empty(),
        }) + world.fuel_cells.map_values(|cell: FuelCell| cell_created(cell))
            + world.asteroids.map_values(
            |rock: Asteroid|
                Record::Created { kind: EntityKind::Asteroid, body: rock.body, capacity: None },
        )
    }

    /// The creation records of every entity that the world holds, for the
    /// start of play.
    pub fn creation_records(&self) -> (records: Vec<Record>)
        ensures
            records@ == World::census(self@),
    {
        let mut records: Vec<Record> = Vec::new();
        match self.ship {
            Some(ship) => {
                records.push(
                    Record::Created { kind: EntityKind::Ship, body: ship.body, capacity: None },
                );
            },
            None => {},
        }
        let ghost first = records@;
        let mut k: usize = 0;
        while k < self.fuel_cells.len()
            invariant
                k <= self.fuel_cells@.len(),
                records@ == first + self.fuel_cells@.take(k as int).map_values(
                    |cell: FuelCell| cell_created(cell),
                ),
            decreases self.fuel_cells@.len() - k,
        {
            let cell: FuelCell = self.fuel_cells[k];
            records.push(
                Record::Created {
                    kind: EntityKind::FuelCell,
                    body: cell.body,
                    capacity: Some(cell.capacity),
                },
            );
            k = k + 1;
        }
        assert(self.fuel_cells@.take(k as int) =~= self.fuel_cells@);
        let ghost second = records@;
        let mut m: usize = 0;
        while m < self.asteroids.len()
            invariant
                m <= self.asteroids@.len(),
                records@ == second + self.asteroids@.take(m as int).map_values(
                    |rock: Asteroid|
                        Record::Created {
                            kind: EntityKind::Asteroid,
                            body: rock.body,
                            capacity: None,
                        },
                ),
            decreases self.asteroids@.len() - m,
        {
            records.push(
                Record::Created {
                    kind: EntityKind::Asteroid,
                    body: self.asteroids[m].body,
                    capacity: None,
                },
            );
            m = m + 1;
        }
        assert(self.asteroids@.take(m as int) =~= self.asteroids@);
        assert(records@ =~= World::census(self@));
        records
    }

    /// The heading that the ship has once it has steered for `dt` seconds: the
    /// heading whose sine and cosine a tick with the same `intents` and `dt`
    /// takes as its direction. `None` without a ship.
    pub fn steered_heading(&self, intents: &Intents, dt: i64) -> (heading: Option<i64>)
        ensures
            heading == match self.ship {
                Some(ship) => Some(
                    ship.turned(intents.rotate_left, intents.rotate_right, dt as int).heading,
                ),
                None => None,
            },
    {
        match self.ship {
            Some(mut ship) => {
                ship.rotate(intents.rotate_left, intents.rotate_right, dt);
                Some(ship.heading)
            },
            None => None,
        }
    }

    /// The fuel in the ship's tank, for display. `None` without a ship.
    pub fn fuel(&self) -> (level: Option<i64>)
        ensures
            level == match self.ship {
                Some(ship) => Some(ship.engine.fuel),
                None => None,
            },
    {
        match self.ship {
            Some(ship) => Some(ship.engine.fuel),
            None => None,
        }
    }

    /// One tick of `dt` seconds. In this order: the ship steers; its engine
    /// runs, with `direction` as the sine and cosine of the heading; every
    /// body moves and wraps into `window`; the fuel cells collide, merge and
    /// reproduce; the ship collects the fuel cells in its reach; an asteroid
    /// in reach destroys the ship. The tank stays within its limits.
    pub fn tick(
        &mut self,
        intents: &Intents,
        direction: &Direction,
        dt: i64,
        window: &Window,
        source: &mut RandomSource,
    ) -> (report: TickReport)
        requires
            old(self)@.wf(),
        ensures
            final(self)@.wf(),
            final(self)@ == world_ticked(
                old(self)@,
                *intents,
                *direction,
                dt as int,
                *window,
                report.spawned@,
            ),
            exists|draws: Seq<u64>|
                {
                    &&& #[trigger] yields(old(source).pending(), final(source).pending(), draws)
                    &&& spawns(
                        world_moved(old(self)@, *intents, *direction, dt as int, *window),
                        draws,
                        report.spawned@,
                    )
                },
            collects(
                world_merged(
                    world_moved(old(self)@, *intents, *direction, dt as int, *window),
                    report.spawned@,
                ),
                report.collected@,
            ),
            report.ship_destroyed == ship_crashes(
                world_refuelled(
                    world_merged(
                        world_moved(old(self)@, *intents, *direction, dt as int, *window),
                        report.spawned@,
                    ),
                ),
            ),
    {
        rotate_ship_system(self, intents, dt);
        engine_system(self, intents, direction, dt);
        velocity_system(self, dt, window);
        let spawned = fuel_cells_collision_system(self, source);
        let collected = collide_with_fuel_system(self);
        let ship_destroyed = collide_with_asteroid_system(self);
        TickReport { spawned, collected, ship_destroyed }
    }
}

} // verus!
