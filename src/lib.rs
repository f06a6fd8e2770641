//! A fixed-step shoot-'em-up simulation core: an entity store, a movement
//! integrator, a wave spawn director, a fire controller and a collision
//! resolver, all driven by one `step` per tick.
pub mod collision;
pub mod config;
pub mod dice;
pub mod director;
pub mod entity;
pub mod geometry;
pub mod movement;
pub mod sim;
pub mod weapon;
