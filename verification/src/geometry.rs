//! Points, velocities and the two overlap tests of the arena.

use vstd::prelude::*;
use crate::random::{lemma_yields_push, yields, RandomSource};

verus! {

/// A point of the plane.
#[derive(Clone, Copy, Debug, PartialEq, Eq, Structural)]
pub struct Position {
    pub x: i64,
    pub y: i64,
}

/// Displacement per second.
#[derive(Clone, Copy, Debug, PartialEq, Eq, Structural)]
pub struct Velocity {
    pub x: i64,
    pub y: i64,
}

/// A drifting entity starts with less than this speed along each axis.
pub const MAX_DRIFT: i64 = 20_000;

/// One component of a drift velocity, from one random draw: at least
/// `-MAX_DRIFT` and less than `MAX_DRIFT`.
pub open spec fn drift_component(draw: u64) -> int {
    draw as int % (2 * MAX_DRIFT) as int - MAX_DRIFT
}

impl Velocity {
    /// The drift velocity that two random draws give.
    pub open spec fn drift(x_draw: u64, y_draw: u64) -> Velocity {
        Velocity { x: drift_component(x_draw) as i64, y: drift_component(y_draw) as i64 }
    }

    /// The drift velocity that two random draws give.
    pub fn drifting(x_draw: u64, y_draw: u64) -> (velocity: Velocity)
        ensures
            velocity == Velocity::drift(x_draw, y_draw),
            -MAX_DRIFT <= velocity.x < MAX_DRIFT,
            -MAX_DRIFT <= velocity.y < MAX_DRIFT,
    {
        let span: u64 = 2 * MAX_DRIFT as u64;
        Velocity {
            x: (x_draw % span) as i64 - MAX_DRIFT,
            y: (y_draw % span) as i64 - MAX_DRIFT,
        }
    }

    /// A random drift velocity: two draws from `source`, the first for x.
    pub fn rand(source: &mut RandomSource) -> (velocity: Velocity)
        ensures
            exists|draws: Seq<u64>|
                {
                    &&& #[trigger] yields(old(source).pending(), final(source).pending(), draws)
                    &&& draws.len() == 2
                    &&& velocity == Velocity::drift(draws[0], draws[1])
                },
    {
        let ghost start = source.pending();
        let x_draw: u64 = source.draw();
        let ghost middle = source.pending();
        let y_draw: u64 = source.draw();
        proof {
            lemma_yields_push(start, middle, source.pending(), seq![x_draw], y_draw);
            assert(seq![x_draw].push(y_draw) =~= seq![x_draw, y_draw]);
            assert(yields(start, source.pending(), seq![x_draw, y_draw]));
        }
        Velocity::drifting(x_draw, y_draw)
    }
}

/// Where an entity is and how it moves.
#[derive(Clone, Copy, Debug, PartialEq, Eq, Structural)]
pub struct Body {
    pub position: Position,
    pub velocity: Velocity,
}

/// Two axis-aligned squares, centred on `a` and `b` with sides `a_size` and
/// `b_size`, share interior points. Squares that only touch along an edge do
/// not overlap.
pub open spec fn boxes_overlap(a: Position, a_size: int, b: Position, b_size: int) -> bool {
    &&& 2 * (a.x - b.x) < a_size + b_size
    &&& 2 * (b.x - a.x) < a_size + b_size
    &&& 2 * (a.y - b.y) < a_size + b_size
    &&& 2 * (b.y - a.y) < a_size + b_size
}

/// The square of the Euclidean distance between `a` and `b`.
pub open spec fn distance_squared(a: Position, b: Position) -> int {
    (a.x - b.x) * (a.x - b.x) + (a.y - b.y) * (a.y - b.y)
}

/// The Euclidean distance between `a` and `b` is less than `radius`.
pub open spec fn closer_than(a: Position, b: Position, radius: int) -> bool {
    radius > 0 && distance_squared(a, b) < radius * radius
}

/// Tests two axis-aligned squares for overlap.
pub fn collide(a: Position, a_size: i64, b: Position, b_size: i64) -> (hit: bool)
    ensures
        hit == boxes_overlap(a, a_size as int, b, b_size as int),
{
    let reach: i128 = a_size as i128 + b_size as i128;
    let dx: i128 = 2 * (a.x as i128 - b.x as i128);
    let dy: i128 = 2 * (a.y as i128 - b.y as i128);
    dx < reach && -dx < reach && dy < reach && -dy < reach
}

/// Tests whether two points lie less than `radius` apart.
pub fn within(a: Position, b: Position, radius: i64) -> (near: bool)
    ensures
        near == closer_than(a, b, radius as int),
{
    if radius <= 0 {
        return false;
    }
    let r: i128 = radius as i128;
    let dx: i128 = a.x as i128 - b.x as i128;
    let dy: i128 = a.y as i128 - b.y as i128;
    if dx >= r || dx <= -r || dy >= r || dy <= -r {
        proof {
            lemma_far_on_one_axis(dx as int, dy as int, r as int);
        }
        return false;
    }
    proof {
        lemma_square_bound(dx as int, r as int);
        lemma_square_bound(dy as int, r as int);
        lemma_square_bound(0, r as int);
    }
    dx * dx + dy * dy < r * r
}

/// A point that is at least `r` away along one axis is at least `r` away.
proof fn lemma_far_on_one_axis(dx: int, dy: int, r: int)
    by (nonlinear_arith)
    requires
        r > 0,
        dx >= r || dx <= -r || dy >= r || dy <= -r,
    ensures
        dx * dx + dy * dy >= r * r,
{
}

/// The square of a value strictly between `-r` and `r` is below the square
/// of `r`, which fits 128 bits as long as `r` fits 64.
proof fn lemma_square_bound(d: int, r: int)
    by (nonlinear_arith)
    requires
        -r < d < r,
        r <= 0x8000_0000_0000_0000,
    ensures
        0 <= d * d < r * r <= 0x4000_0000_0000_0000_0000_0000_0000_0000,
{
}

} // verus!
