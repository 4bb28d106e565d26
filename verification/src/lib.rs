//! A 2D side-scrolling platformer simulation core.
//!
//! The crate drives a player character through a procedurally generated
//! tile cave: semi-implicit Euler physics, axis-aligned tile collision
//! queries and penetration resolution, a movement controller, a random-walk
//! cave generator and a sliding three-fragment cave stream.
//!
//! Continuous quantities (world coordinates, velocities, tile sizes,
//! seconds) are fixed-point values: signed 64-bit counts of millionths of a
//! world unit (see [`fixed`]). Every contract is stated exactly over that
//! integer representation.

pub mod animation;
pub mod collision;
pub mod fixed;
pub mod game;
pub mod geometry;
pub mod movement;
pub mod physics;
pub mod rendering;
pub mod tilemap;
