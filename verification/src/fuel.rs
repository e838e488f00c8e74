//! Fuel cells: how they merge when they touch, and when they reproduce.

use vstd::prelude::*;
use crate::fixed::{mean, opposite, sat, saturate};
use crate::geometry::{boxes_overlap, collide, Body, Position, Velocity};
use crate::kinematics::Window;
use crate::random::{
    lemma_yields_append, lemma_yields_nothing, lemma_yields_push, yields, RandomSource,
};
use crate::world::{World, WorldView};

verus! {

/// Side of a fuel cell's square bound.
pub const FUEL_CELL_SIZE: i64 = 8_000;

/// The least capacity of a fresh fuel cell.
pub const MIN_CAPACITY: i64 = 10_000;

/// A fresh fuel cell's capacity lies less than this above `MIN_CAPACITY`.
pub const CAPACITY_SPREAD: i64 = 10_000;

/// Fuel cells that a new arena is stocked with.
pub const INITIAL_CELLS: usize = 50;

/// Random draws that one stocked fuel cell takes: two for its place, one for
/// its capacity, two for its velocity.
pub const DRAWS_PER_CELL: usize = 5;

/// Seconds of travel, at the merged velocity, between a parent and the place
/// where its child appears.
pub const SPAWN_LEAD: i64 = 10;

/// A drifting unit of fuel.
#[derive(Clone, Copy, Debug, PartialEq, Eq, Structural)]
pub struct FuelCell {
    pub body: Body,
    /// Fuel that the ship gains by collecting this cell.
    pub capacity: i64,
    /// Set for good by the cell's first touch with another cell, whether or
    /// not a child was spawned then.
    pub has_spawn_children: bool,
}

/// The result of a collision pass over the fuel cells: the cells after their
/// merges, and the bodies of the children to spawn, in the order in which the
/// pass decided on them.
pub struct Pass {
    pub cells: Seq<FuelCell>,
    pub births: Seq<Body>,
}

/// The square bounds of `a` and `b` overlap.
pub open spec fn cells_touch(a: FuelCell, b: FuelCell) -> bool {
    boxes_overlap(a.body.position, FUEL_CELL_SIZE as int, b.body.position, FUEL_CELL_SIZE as int)
}

/// The velocity that two touching cells share afterwards: the mean of their
/// velocities, each component rounded down.
pub open spec fn merged_velocity(a: Velocity, b: Velocity) -> Velocity {
    Velocity { x: ((a.x + b.x) / 2) as i64, y: ((a.y + b.y) / 2) as i64 }
}

/// Where the child of a pair appears: `SPAWN_LEAD` seconds behind the first
/// parent along the merged velocity.
pub open spec fn spawn_site(parent: Position, merged: Velocity) -> Position {
    Position {
        x: sat(parent.x - SPAWN_LEAD * merged.x) as i64,
        y: sat(parent.y - SPAWN_LEAD * merged.y) as i64,
    }
}

/// A cell placed at `site` would overlap none of `cells`.
pub open spec fn site_is_free(cells: Seq<FuelCell>, site: Position) -> bool {
    forall|k: int|
        0 <= k < cells.len() ==> !boxes_overlap(
            site,
            FUEL_CELL_SIZE as int,
            (#[trigger] cells[k]).body.position,
            FUEL_CELL_SIZE as int,
        )
}

/// `cell` after a touch that left it with velocity `merged`: it keeps its
/// place and capacity and has had its one chance to reproduce.
pub open spec fn merged_cell(cell: FuelCell, merged: Velocity) -> FuelCell {
    FuelCell {
        body: Body { position: cell.body.position, velocity: merged },
        capacity: cell.capacity,
        has_spawn_children: true,
    }
}

/// The body of the child that the pair `first`, `second` spawns among `cells`,
/// if it spawns one: the two touch, at least one of them has not reproduced
/// before, and the spawn site is free. The child moves against the merged
/// velocity.
pub open spec fn pair_birth(cells: Seq<FuelCell>, first: int, second: int) -> Option<Body> {
    let a = cells[first];
    let b = cells[second];
    let merged = merged_velocity(a.body.velocity, b.body.velocity);
    let site = spawn_site(a.body.position, merged);
    if cells_touch(a, b) && (!a.has_spawn_children || !b.has_spawn_children) && site_is_free(
        cells,
        site,
    ) {
        Some(
            Body {
                position: site,
                velocity: Velocity { x: sat(-merged.x) as i64, y: sat(-merged.y) as i64 },
            },
        )
    } else {
        None
    }
}

/// The cells after the pair `first`, `second` was examined: unchanged unless
/// the two touch, and then both carry the merged velocity and the mark.
pub open spec fn pair_cells(cells: Seq<FuelCell>, first: int, second: int) -> Seq<FuelCell> {
    let a = cells[first];
    let b = cells[second];
    let merged = merged_velocity(a.body.velocity, b.body.velocity);
    if cells_touch(a, b) {
        cells.update(first, merged_cell(a, merged)).update(second, merged_cell(b, merged))
    } else {
        cells
    }
}

/// One pair examined on top of what the pass has done so far.
pub open spec fn pair_step(pass: Pass, first: int, second: int) -> Pass {
    Pass {
        cells: pair_cells(pass.cells, first, second),
        births: match pair_birth(pass.cells, first, second) {
            Some(body) => pass.births.push(body),
            None => pass.births,
        },
    }
}

/// The pass after the pairs of `first` with each later cell before `second`,
/// in rising order.
pub open spec fn sweep_row(pass: Pass, first: int, second: int) -> Pass
    decreases second - first,
{
    if second <= first + 1 {
        pass
    } else {
        pair_step(sweep_row(pass, first, second - 1), first, second - 1)
    }
}

/// The pass after every pair whose first cell comes before `first`: the rows
/// in rising order, and each row as `sweep_row` has it.
pub open spec fn sweep(pass: Pass, first: int) -> Pass
    decreases first,
{
    if first <= 0 {
        pass
    } else {
        sweep_row(sweep(pass, first - 1), first - 1, pass.cells.len() as int)
    }
}

/// A whole collision pass over `cells`: every unordered pair of distinct
/// cells, examined once.
pub open spec fn after_collisions(cells: Seq<FuelCell>) -> Pass {
    sweep(Pass { cells, births: Seq::empty() }, cells.len() as int)
}

/// The capacity that a fresh cell gets from one random draw.
pub open spec fn capacity_from(draw: u64) -> int {
    MIN_CAPACITY + draw as int % CAPACITY_SPREAD as int
}

/// The child with body `body` whose capacity comes from `draw`.
pub open spec fn hatchling(body: Body, draw: u64) -> FuelCell {
    FuelCell { body, capacity: capacity_from(draw) as i64, has_spawn_children: false }
}

/// The children of the births `births`, the capacity of each from the draw of
/// the same index.
pub open spec fn hatched(births: Seq<Body>, draws: Seq<u64>) -> Seq<FuelCell> {
    Seq::new(births.len(), |k: int| hatchling(births[k], draws[k]))
}

/// `later` is `earlier` after some touches: same place and capacity, and
/// the mark still set if it was set.
pub open spec fn touched(earlier: FuelCell, later: FuelCell) -> bool {
    &&& later.body.position == earlier.body.position
    &&& later.capacity == earlier.capacity
    &&& earlier.has_spawn_children ==> later.has_spawn_children
}

/// What every stage of a pass over `start` keeps: the cells stay where they
/// were, no mark is taken back, and each birth lies clear of all the cells.
pub open spec fn pass_keeps(start: Seq<FuelCell>, pass: Pass) -> bool {
    &&& pass.cells.len() == start.len()
    &&& forall|k: int| 0 <= k < start.len() ==> touched(start[k], #[trigger] pass.cells[k])
    &&& forall|m: int|
        0 <= m < pass.births.len() ==> site_is_free(start, (#[trigger] pass.births[m]).position)
}

/// Every cell of `cells` carries the mark.
pub open spec fn all_marked(cells: Seq<FuelCell>) -> bool {
    forall|k: int| 0 <= k < cells.len() ==> (#[trigger] cells[k]).has_spawn_children
}

/// A free site among `cells` is free among cells that stand in the same places.
proof fn lemma_free_site_moves(start: Seq<FuelCell>, cells: Seq<FuelCell>, site: Position)
    requires
        cells.len() == start.len(),
        forall|k: int| 0 <= k < start.len() ==> touched(start[k], #[trigger] cells[k]),
        site_is_free(cells, site),
    ensures
        site_is_free(start, site),
{
    assert forall|k: int| 0 <= k < start.len() implies !boxes_overlap(
        site,
        FUEL_CELL_SIZE as int,
        (#[trigger] start[k]).body.position,
        FUEL_CELL_SIZE as int,
    ) by {
        assert(touched(start[k], cells[k]));
    }
}

/// One pair keeps what a pass keeps.
proof fn lemma_pair_keeps(start: Seq<FuelCell>, pass: Pass, first: int, second: int)
    requires
        pass_keeps(start, pass),
        0 <= first < start.len(),
        0 <= second < start.len(),
    ensures
        pass_keeps(start, pair_step(pass, first, second)),
        all_marked(pass.cells) ==> all_marked(pair_step(pass, first, second).cells)
            && pair_step(pass, first, second).births == pass.births,
{
    let next = pair_step(pass, first, second);
    assert forall|k: int| 0 <= k < start.len() implies touched(
        start[k],
        #[trigger] next.cells[k],
    ) by {
        assert(touched(start[k], pass.cells[k]));
    }
    match pair_birth(pass.cells, first, second) {
        Some(body) => {
            lemma_free_site_moves(start, pass.cells, body.position);
            assert forall|m: int| 0 <= m < next.births.len() implies site_is_free(
                start,
                (#[trigger] next.births[m]).position,
            ) by {
                if m < pass.births.len() {
                    assert(next.births[m] == pass.births[m]);
                }
            }
        },
        None => {},
    }
    if all_marked(pass.cells) {
        assert(pass.cells[first].has_spawn_children);
        assert(pass.cells[second].has_spawn_children);
    }
}

/// A row of pairs keeps what a pass keeps.
proof fn lemma_row_keeps(start: Seq<FuelCell>, pass: Pass, first: int, second: int)
    requires
        pass_keeps(start, pass),
        0 <= first < start.len(),
        second <= start.len(),
    ensures
        pass_keeps(start, sweep_row(pass, first, second)),
        all_marked(pass.cells) ==> all_marked(sweep_row(pass, first, second).cells) && sweep_row(
            pass,
            first,
            second,
        ).births == pass.births,
    decreases second - first,
{
    if second > first + 1 {
        lemma_row_keeps(start, pass, first, second - 1);
        lemma_pair_keeps(start, sweep_row(pass, first, second - 1), first, second - 1);
    }
}

/// The rows before `first` keep what a pass keeps.
proof fn lemma_sweep_keeps(start: Seq<FuelCell>, first: int)
    requires
        first <= start.len(),
    ensures
        pass_keeps(start, sweep(Pass { cells: start, births: Seq::empty() }, first)),
        all_marked(start) ==> all_marked(
            sweep(Pass { cells: start, births: Seq::empty() }, first).cells,
        ) && sweep(Pass { cells: start, births: Seq::empty() }, first).births.len() == 0,
    decreases first,
{
    let begin = Pass { cells: start, births: Seq::empty() };
    if first > 0 {
        lemma_sweep_keeps(start, first - 1);
        lemma_row_keeps(start, sweep(begin, first - 1), first - 1, start.len() as int);
    }
}

/// A collision pass moves no cell, changes no capacity and takes no mark
/// back: a cell that has reproduced, or has tried to, stays marked for good.
pub proof fn lemma_marks_are_kept(cells: Seq<FuelCell>)
    ensures
        after_collisions(cells).cells.len() == cells.len(),
        forall|k: int|
            0 <= k < cells.len() ==> touched(cells[k], #[trigger] after_collisions(cells).cells[k]),
{
    lemma_sweep_keeps(cells, cells.len() as int);
}

/// A pair of cells that both carry the mark spawns no child, whether or not
/// the two touch.
pub proof fn lemma_marked_pair_is_barren(cells: Seq<FuelCell>, first: int, second: int)
    requires
        cells[first].has_spawn_children,
        cells[second].has_spawn_children,
    ensures
        pair_birth(cells, first, second) is None,
{
}

/// Where every cell carries the mark, a whole pass spawns nothing.
pub proof fn lemma_marked_cells_are_barren(cells: Seq<FuelCell>)
    requires
        all_marked(cells),
    ensures
        after_collisions(cells).births.len() == 0,
{
    lemma_sweep_keeps(cells, cells.len() as int);
}

/// The bound of a child that a pass spawns overlaps the bound of no cell
/// that took part in the pass, neither where the cells stood before the pass
/// nor where they stand after it.
pub proof fn lemma_children_are_clear(cells: Seq<FuelCell>, draws: Seq<u64>, child: int)
    requires
        0 <= child < after_collisions(cells).births.len(),
    ensures
        site_is_free(cells, hatched(after_collisions(cells).births, draws)[child].body.position),
        site_is_free(
            after_collisions(cells).cells,
            hatched(after_collisions(cells).births, draws)[child].body.position,
        ),
{
    lemma_sweep_keeps(cells, cells.len() as int);
    let after = after_collisions(cells);
    let site = after.births[child].position;
    assert(site_is_free(cells, site));
    assert forall|k: int| 0 <= k < after.cells.len() implies !boxes_overlap(
        site,
        FUEL_CELL_SIZE as int,
        (#[trigger] after.cells[k]).body.position,
        FUEL_CELL_SIZE as int,
    ) by {
        assert(touched(cells[k], after.cells[k]));
        assert(!boxes_overlap(
            site,
            FUEL_CELL_SIZE as int,
            cells[k].body.position,
            FUEL_CELL_SIZE as int,
        ));
    }
}

/// The fuel cell that a new arena gets from five random draws: a place in
/// `window` from the first two, a capacity from the third and a drift velocity
/// from the last two. It has not reproduced.
pub open spec fn stocked_cell(window: Window, draws: Seq<u64>) -> FuelCell {
    hatchling(
        Body {
            position: window.random_point(draws[0], draws[1]),
            velocity: Velocity::drift(draws[3], draws[4]),
        },
        draws[2],
    )
}

/// The fuel cells that a new arena gets from `draws`, five draws to a cell.
pub open spec fn stocked_cells(window: Window, draws: Seq<u64>) -> Seq<FuelCell> {
    Seq::new(
        draws.len() / DRAWS_PER_CELL as nat,
        |k: int|
            stocked_cell(window, draws.subrange(DRAWS_PER_CELL * k, DRAWS_PER_CELL * k + DRAWS_PER_CELL)),
    )
}

impl FuelCell {
    /// A cell that has not reproduced, with the capacity that `draw` gives.
    pub fn hatch(body: Body, draw: u64) -> (cell: FuelCell)
        ensures
            cell == hatchling(body, draw),
            MIN_CAPACITY <= cell.capacity < MIN_CAPACITY + CAPACITY_SPREAD,
    {
        let extra: u64 = draw % (CAPACITY_SPREAD as u64);
        FuelCell { body, capacity: MIN_CAPACITY + extra as i64, has_spawn_children: false }
    }
}

/// Whether a cell placed at `site` would overlap none of `cells`.
pub fn has_space_to_spawn(cells: &Vec<FuelCell>, site: Position) -> (free: bool)
    ensures
        free == site_is_free(cells@, site),
{
    let mut k: usize = 0;
    while k < cells.len()
        invariant
            k <= cells.len(),
            forall|m: int|
                0 <= m < k ==> !boxes_overlap(
                    site,
                    FUEL_CELL_SIZE as int,
                    (#[trigger] cells@[m]).body.position,
                    FUEL_CELL_SIZE as int,
                ),
        decreases cells.len() - k,
    {
        if collide(site, FUEL_CELL_SIZE, cells[k].body.position, FUEL_CELL_SIZE) {
            return false;
        }
        k = k + 1;
    }
    true
}

/// Examines the pair `first`, `second`: merges the two cells if they touch,
/// and returns the body of their child if they spawn one.
pub fn merge_pair(cells: &mut Vec<FuelCell>, first: usize, second: usize) -> (birth: Option<Body>)
    requires
        first < old(cells).len(),
        second < old(cells).len(),
        first != second,
    ensures
        final(cells)@ == pair_cells(old(cells)@, first as int, second as int),
        birth == pair_birth(old(cells)@, first as int, second as int),
{
    let a: FuelCell = cells[first];
    let b: FuelCell = cells[second];
    if !collide(a.body.position, FUEL_CELL_SIZE, b.body.position, FUEL_CELL_SIZE) {
        return None;
    }
    let merged = Velocity {
        x: mean(a.body.velocity.x, b.body.velocity.x),
        y: mean(a.body.velocity.y, b.body.velocity.y),
    };
    let mut birth: Option<Body> = None;
    if !a.has_spawn_children || !b.has_spawn_children {
        let site = Position {
            x: saturate(a.body.position.x as i128 - SPAWN_LEAD as i128 * merged.x as i128),
            y: saturate(a.body.position.y as i128 - SPAWN_LEAD as i128 * merged.y as i128),
        };
        if has_space_to_spawn(cells, site) {
            birth = Some(
                Body {
                    position: site,
                    velocity: Velocity { x: opposite(merged.x), y: opposite(merged.y) },
                },
            );
        }
    }
    cells[first].body.velocity = merged;
    cells[first].has_spawn_children = true;
    cells[second].body.velocity = merged;
    cells[second].has_spawn_children = true;
    assert(cells@ =~= pair_cells(old(cells)@, first as int, second as int));
    birth
}

/// Stocks the arena: adds `INITIAL_CELLS` fuel cells behind those that the
/// world holds, each at a random place in `window`, with a random capacity and
/// a random drift.
pub fn spawn_fuel_cells_system(world: &mut World, window: &Window, source: &mut RandomSource)
    requires
        window.wf(),
    ensures
        exists|draws: Seq<u64>|
            {
                &&& #[trigger] yields(old(source).pending(), final(source).pending(), draws)
                &&& draws.len() == INITIAL_CELLS * DRAWS_PER_CELL
                &&& final(world)@ == (WorldView {
                    fuel_cells: old(world).fuel_cells@ + stocked_cells(*window, draws),
                    ..old(world)@
                })
            },
{
    let ghost mut draws: Seq<u64> = Seq::empty();
    proof {
        lemma_yields_nothing(source.pending());
        assert(world.fuel_cells@ =~= old(world).fuel_cells@ + stocked_cells(*window, draws));
    }
    let mut made: usize = 0;
    while made < INITIAL_CELLS
        invariant
            made <= INITIAL_CELLS,
            window.wf(),
            world.ship == old(world).ship,
            world.asteroids@ == old(world).asteroids@,
            draws.len() == made * DRAWS_PER_CELL,
            yields(old(source).pending(), source.pending(), draws),
            world.fuel_cells@ == old(world).fuel_cells@ + stocked_cells(*window, draws),
        decreases INITIAL_CELLS - made,
    {
        let ghost before = source.pending();
        let x_draw: u64 = source.draw();
        let ghost after_x = source.pending();
        let y_draw: u64 = source.draw();
        let ghost after_y = source.pending();
        let capacity_draw: u64 = source.draw();
        let ghost after_capacity = source.pending();
        let velocity = Velocity::rand(source);
        let cell = FuelCell::hatch(
            Body { position: window.scatter(x_draw, y_draw), velocity },
            capacity_draw,
        );
        world.fuel_cells.push(cell);
        proof {
            let pair = choose|pair: Seq<u64>|
                {
                    &&& #[trigger] yields(after_capacity, source.pending(), pair)
                    &&& pair.len() == 2
                    &&& velocity == Velocity::drift(pair[0], pair[1])
                };
            let three = seq![x_draw, y_draw, capacity_draw];
            lemma_yields_push(before, after_x, after_y, seq![x_draw], y_draw);
            lemma_yields_push(before, after_y, after_capacity, seq![x_draw, y_draw], capacity_draw);
            assert(seq![x_draw].push(y_draw).push(capacity_draw) =~= three);
            lemma_yields_append(before, after_capacity, source.pending(), three, pair);
            let five = three + pair;
            lemma_yields_append(old(source).pending(), before, source.pending(), draws, five);
            let longer = draws + five;
            assert(longer.subrange(DRAWS_PER_CELL * made, DRAWS_PER_CELL * made + DRAWS_PER_CELL)
                =~= five);
            assert(cell == stocked_cell(*window, five));
            assert forall|k: int| 0 <= k < made implies #[trigger] stocked_cells(*window, longer)[k]
                == stocked_cells(*window, draws)[k] by {
                assert(longer.subrange(DRAWS_PER_CELL * k, DRAWS_PER_CELL * k + DRAWS_PER_CELL)
                    =~= draws.subrange(DRAWS_PER_CELL * k, DRAWS_PER_CELL * k + DRAWS_PER_CELL));
            }
            assert(world.fuel_cells@ =~= old(world).fuel_cells@ + stocked_cells(*window, longer));
            draws = longer;
        }
        made = made + 1;
    }
    assert(world@ == (WorldView {
        fuel_cells: old(world).fuel_cells@ + stocked_cells(*window, draws),
        ..old(world)@
    }));
}

/// The world after a collision pass over its fuel cells that spawned
/// `children`: the cells as the pass has left them, and the children behind
/// them.
pub open spec fn world_merged(world: WorldView, children: Seq<FuelCell>) -> WorldView {
    WorldView { fuel_cells: after_collisions(world.fuel_cells).cells + children, ..world }
}

/// `children` are what a collision pass over the fuel cells of `world`
/// spawns with the capacity draws `draws`: one child for each birth, in order.
pub open spec fn spawns(world: WorldView, draws: Seq<u64>, children: Seq<FuelCell>) -> bool {
    &&& draws.len() == after_collisions(world.fuel_cells).births.len()
    &&& children == hatched(after_collisions(world.fuel_cells).births, draws)
}

/// The collision pass over the fuel cells. Every unordered pair of distinct
/// cells is examined once, the pairs of a cell with its successors before the
/// pairs of the next cell. Cells that touch merge their velocities, and spawn a
/// child where the rules allow it. The children join the world's cells, behind
/// the others, when the pass is over; they are returned as well.
pub fn fuel_cells_collision_system(world: &mut World, source: &mut RandomSource) -> (children: Vec<
    FuelCell,
>)
    ensures
        final(world)@ == world_merged(old(world)@, children@),
        exists|draws: Seq<u64>|
            {
                &&& #[trigger] yields(old(source).pending(), final(source).pending(), draws)
                &&& spawns(old(world)@, draws, children@)
            },
        forall|k: int|
            0 <= k < children@.len() ==> site_is_free(
                old(world).fuel_cells@,
                (#[trigger] children@[k]).body.position,
            ),
        forall|k: int|
            0 <= k < old(world).fuel_cells@.len() ==> touched(
                old(world).fuel_cells@[k],
                #[trigger] final(world).fuel_cells@[k],
            ),
{
    let count: usize = world.fuel_cells.len();
    let ghost start = Pass { cells: world.fuel_cells@, births: Seq::empty() };
    let ghost mut pass = start;
    let ghost mut draws: Seq<u64> = Seq::empty();
    let mut children: Vec<FuelCell> = Vec::new();
    proof {
        lemma_yields_nothing(source.pending());
        assert(children@ =~= hatched(pass.births, draws));
    }
    let mut first: usize = 0;
    while first < count
        invariant
            first <= count,
            count == start.cells.len(),
            start.births.len() == 0,
            world.ship == old(world).ship,
            world.asteroids@ == old(world).asteroids@,
            world.fuel_cells@ == pass.cells,
            pass.cells.len() == count,
            pass == sweep(start, first as int),
            draws.len() == pass.births.len(),
            yields(old(source).pending(), source.pending(), draws),
            children@ == hatched(pass.births, draws),
        decreases count - first,
    {
        let ghost row_start = pass;
        let mut second: usize = first + 1;
        while second < count
            invariant
                first < count,
                first < second <= count,
                count == start.cells.len(),
                world.ship == old(world).ship,
                world.asteroids@ == old(world).asteroids@,
                world.fuel_cells@ == pass.cells,
                pass.cells.len() == count,
                pass == sweep_row(row_start, first as int, second as int),
                draws.len() == pass.births.len(),
                yields(old(source).pending(), source.pending(), draws),
                children@ == hatched(pass.births, draws),
            decreases count - second,
        {
            let ghost before = pass;
            let ghost pending = source.pending();
            let birth = merge_pair(&mut world.fuel_cells, first, second);
            proof {
                pass = pair_step(before, first as int, second as int);
            }
            match birth {
                Some(body) => {
                    let draw: u64 = source.draw();
                    let child = FuelCell::hatch(body, draw);
                    children.push(child);
                    proof {
                        lemma_yields_push(
                            old(source).pending(),
                            pending,
                            source.pending(),
                            draws,
                            draw,
                        );
                        draws = draws.push(draw);
                        assert(children@ =~= hatched(pass.births, draws));
                    }
                },
                None => {},
            }
            second = second + 1;
        }
        first = first + 1;
    }
    let mut k: usize = 0;
    while k < children.len()
        invariant
            k <= children.len(),
            world.ship == old(world).ship,
            world.asteroids@ == old(world).asteroids@,
            world.fuel_cells@ == pass.cells + children@.take(k as int),
        decreases children.len() - k,
    {
        world.fuel_cells.push(children[k]);
        k = k + 1;
        assert(children@.take(k as int) =~= children@.take(k - 1).push(children@[k - 1]));
    }
    proof {
        assert(children@.take(k as int) =~= children@);
        assert(yields(old(source).pending(), source.pending(), draws) && spawns(
            old(world)@,
            draws,
            children@,
        ));
        lemma_marks_are_kept(old(world).fuel_cells@);
        assert forall|m: int| 0 <= m < children@.len() implies site_is_free(
            old(world).fuel_cells@,
            (#[trigger] children@[m]).body.position,
        ) by {
            lemma_children_are_clear(old(world).fuel_cells@, draws, m);
        }
    }
    children
}

} // verus!
