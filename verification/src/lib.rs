//! A spiral of stars: particles leave a turning origin at a fixed cadence,
//! drift outward, and are joined to their nearest neighbours by lines whose
//! colour runs from one star's to the other's.
//!
//! The library holds the simulation and the renderer as verified integer
//! code. It draws nothing itself: the renderer returns a list of primitives
//! for a host to put on the screen.
pub mod arith;
pub mod clock;
pub mod color;
pub mod controls;
pub mod geometry;
pub mod render;
pub mod simulation;
pub mod star;
pub mod units;
