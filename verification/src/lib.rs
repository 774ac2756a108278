//! A deterministic 2D physics core for actors moving over a static tile world.
//!
//! Every quantity is an integer. Positions, velocities and forces are pairs of
//! `i32` in a unit of the caller's choosing (a fixed-point sub-pixel unit works
//! well), rates are per second, and a time step is a whole number of
//! microseconds. One simulation tick runs, for each actor and in this order:
//! `movement::physics_velocity`, `collisions::collisions`, `movement::movement`.

pub mod collisions;
pub mod geometry;
pub mod movement;
pub mod player;
pub mod tilegroup;
pub mod tilemap;
pub mod vector;
