//! A two-dimensional arena on a torus: one ship that burns fuel to accelerate,
//! drifting fuel cells that merge and reproduce when they touch, and asteroids
//! that destroy the ship on contact.
//!
//! Every scalar is a signed 64-bit count of thousandths: of a world unit for
//! lengths, of a second for times, of a radian for angles. All arithmetic
//! saturates at the ends of that range, so every operation is total.
//!
//! A [`world::World`] owns the entities, one collection for each kind, and
//! [`world::World::tick`] runs one frame: steering, engine, motion, then the
//! three collision passes. Randomness comes from a [`random::RandomSource`],
//! which can be scripted.

pub mod asteroid;
pub mod fixed;
pub mod fuel;
pub mod geometry;
pub mod kinematics;
pub mod random;
pub mod ship;
pub mod world;
