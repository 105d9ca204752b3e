//! A small arcade simulation: an entity store with sparse component tables,
//! and the per-tick systems (movement, integration, collision, spawning)
//! that run over it in a fixed order.
//!
//! Coordinates, extents and velocities are whole world units; spawn timers
//! count tenths of a time unit.

pub mod components;
pub mod storage;
pub mod world;
pub mod collision_system;
pub mod spawn_system;
pub mod resources;
pub mod input_system;
pub mod physics_system;
pub mod render_system;
pub mod entities;
pub mod pipeline;
