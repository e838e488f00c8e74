//! Asteroids: motionless hazards with a circular bound.

use vstd::prelude::*;
use crate::geometry::{Body, Velocity};
use crate::kinematics::Window;
use crate::random::{lemma_yields_append, lemma_yields_nothing, lemma_yields_push, yields, RandomSource};
use crate::world::{World, WorldView};

verus! {

/// Radius of the circular bound that collisions use, and the upper limit of an
/// outline's vertex distances.
pub const MAX_RADIUS: i64 = 32_000;

/// The least distance of an outline's vertex from the centre.
pub const MIN_RADIUS: i64 = 12_000;

/// An outline has at least this many vertices.
pub const MIN_SIDES: usize = 5;

/// An outline has less than this many vertices above `MIN_SIDES`.
pub const SIDES_SPREAD: usize = 8;

/// Asteroids that a new arena is strewn with.
pub const INITIAL_ASTEROIDS: usize = 10;

/// Width of the field, centred on the origin, that asteroids are strewn over.
pub const FIELD_WIDTH: i64 = 800_000;

/// Height of the field that asteroids are strewn over.
pub const FIELD_HEIGHT: i64 = 600_000;

/// A hazard. The ship is destroyed when it comes too close to one.
#[derive(Clone, Copy, Debug, PartialEq, Eq, Structural)]
pub struct Asteroid {
    pub body: Body,
}

/// The number of vertices that one random draw gives an outline.
pub open spec fn sides_from(draw: u64) -> int {
    MIN_SIDES + draw as int % SIDES_SPREAD as int
}

/// The distance from the centre that one random draw gives a vertex.
pub open spec fn vertex_radius(draw: u64) -> int {
    MIN_RADIUS + draw as int % (MAX_RADIUS - MIN_RADIUS)
}

/// The outline that `draws` give: the first draw sets the number of vertices,
/// and each of the following sets the distance of one vertex from the centre.
/// The vertices stand at equal angles around the centre.
pub open spec fn outline(draws: Seq<u64>) -> Seq<i64> {
    Seq::new(sides_from(draws[0]) as nat, |k: int| vertex_radius(draws[k + 1]) as i64)
}

/// The field that asteroids are strewn over.
pub open spec fn field() -> Window {
    Window { width: FIELD_WIDTH, height: FIELD_HEIGHT }
}

/// The asteroid that two random draws place in the field. It does not move.
pub open spec fn strewn_asteroid(x_draw: u64, y_draw: u64) -> Asteroid {
    Asteroid {
        body: Body {
            position: field().random_point(x_draw, y_draw),
            velocity: Velocity { x: 0, y: 0 },
        },
    }
}

/// The asteroids that `draws` place in the field, two draws to an asteroid.
pub open spec fn strewn(draws: Seq<u64>) -> Seq<Asteroid> {
    Seq::new(draws.len() / 2, |k: int| strewn_asteroid(draws[2 * k], draws[2 * k + 1]))
}

impl Asteroid {
    /// The asteroid that two random draws place in the field.
    pub fn strew(x_draw: u64, y_draw: u64) -> (rock: Asteroid)
        ensures
            rock == strewn_asteroid(x_draw, y_draw),
    {
        let field = Window { width: FIELD_WIDTH, height: FIELD_HEIGHT };
        Asteroid {
            body: Body { position: field.scatter(x_draw, y_draw), velocity: Velocity { x: 0, y: 0 } },
        }
    }
}

/// A random outline for an asteroid: between 5 and 12 vertices at equal
/// angles, each at least `MIN_RADIUS` and less than `MAX_RADIUS` from the
/// centre. Returns the distances, one for each vertex in turn.
pub fn generate_rnd_shape(source: &mut RandomSource) -> (radii: Vec<i64>)
    ensures
        exists|draws: Seq<u64>|
            {
                &&& #[trigger] yields(old(source).pending(), final(source).pending(), draws)
                &&& draws.len() == 1 + sides_from(draws[0])
                &&& radii@ == outline(draws)
            },
        MIN_SIDES <= radii@.len() < MIN_SIDES + SIDES_SPREAD,
        forall|k: int| 0 <= k < radii@.len() ==> MIN_RADIUS <= #[trigger] radii@[k] < MAX_RADIUS,
{
    let ghost start = source.pending();
    let first: u64 = source.draw();
    let sides: usize = MIN_SIDES + (first % (SIDES_SPREAD as u64)) as usize;
    let ghost mut draws: Seq<u64> = seq![first];
    let mut radii: Vec<i64> = Vec::new();
    let mut k: usize = 0;
    while k < sides
        invariant
            k <= sides,
            sides == sides_from(first),
            draws.len() == 1 + k,
            draws[0] == first,
            yields(start, source.pending(), draws),
            radii@.len() == k,
            forall|m: int| 0 <= m < k ==> #[trigger] radii@[m] == vertex_radius(draws[m + 1]),
        decreases sides - k,
    {
        let ghost before = source.pending();
        let draw: u64 = source.draw();
        let radius: i64 = MIN_RADIUS + (draw % ((MAX_RADIUS - MIN_RADIUS) as u64)) as i64;
        radii.push(radius);
        proof {
            lemma_yields_push(start, before, source.pending(), draws, draw);
            draws = draws.push(draw);
        }
        k = k + 1;
    }
    assert(radii@ =~= outline(draws));
    radii
}

/// Strews the field: adds `INITIAL_ASTEROIDS` asteroids behind those that the
/// world holds, each at a random place of the field and at rest.
pub fn spawn_asteroids_system(world: &mut World, source: &mut RandomSource)
    ensures
        exists|draws: Seq<u64>|
            {
                &&& #[trigger] yields(old(source).pending(), final(source).pending(), draws)
                &&& draws.len() == 2 * INITIAL_ASTEROIDS
                &&& final(world)@ == (WorldView {
                    asteroids: old(world).asteroids@ + strewn(draws),
                    ..old(world)@
                })
            },
{
    let ghost mut draws: Seq<u64> = Seq::empty();
    proof {
        lemma_yields_nothing(source.pending());
        assert(world.asteroids@ =~= old(world).asteroids@ + strewn(draws));
    }
    let mut made: usize = 0;
    while made < INITIAL_ASTEROIDS
        invariant
            made <= INITIAL_ASTEROIDS,
            world.ship == old(world).ship,
            world.fuel_cells@ == old(world).fuel_cells@,
            draws.len() == 2 * made,
            yields(old(source).pending(), source.pending(), draws),
            world.asteroids@ == old(world).asteroids@ + strewn(draws),
        decreases INITIAL_ASTEROIDS - made,
    {
        let ghost before = source.pending();
        let x_draw: u64 = source.draw();
        let ghost middle = source.pending();
        let y_draw: u64 = source.draw();
        world.asteroids.push(Asteroid::strew(x_draw, y_draw));
        proof {
            lemma_yields_push(before, middle, source.pending(), seq![x_draw], y_draw);
            let pair = seq![x_draw].push(y_draw);
            lemma_yields_append(old(source).pending(), before, source.pending(), draws, pair);
            let longer = draws + pair;
            assert forall|k: int| 0 <= k < made implies #[trigger] strewn(longer)[k] == strewn(
                draws,
            )[k] by {
                assert(longer[2 * k] == draws[2 * k]);
                assert(longer[2 * k + 1] == draws[2 * k + 1]);
            }
            assert(longer[2 * made] == x_draw);
            assert(longer[2 * made + 1] == y_draw);
            assert(world.asteroids@ =~= old(world).asteroids@ + strewn(longer));
            draws = longer;
        }
        made = made + 1;
    }
    assert(world@ == (WorldView {
        asteroids: old(world).asteroids@ + strewn(draws),
        ..old(world)@
    }));
}

} // verus!
