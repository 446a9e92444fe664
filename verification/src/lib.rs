//! A particle-animation engine: four independent particle populations
//! (a shatterable static grid, a top-spawn stream, a mutually repelling
//! cloud, and a cursor-following trail), each with its own spawn, decay
//! and removal policy, driven one update per frame by a mode controller.
//!
//! All quantities are fixed-point integers: 100 units stand for 1.0 of
//! the on-screen coordinate system, so the engine's arithmetic is exact.
//! Rendering, the configuration panel and input sampling are external
//! collaborators; they hand the engine plain values (origins, cursor
//! positions, freshly drawn spawn velocities) and read the particle
//! state back.

pub mod geom;
pub mod particle;
pub mod config;
pub mod interact;
pub mod population;
pub mod engine;
