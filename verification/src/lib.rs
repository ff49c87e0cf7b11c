//! Server-side simulation engine for a multiplayer asteroids game played on a
//! toroidal world.
//!
//! All world geometry is carried in fixed-point integers: positions and
//! velocities in milli-units (one thousandth of a world unit), time in
//! milliseconds of simulation clock, headings in twenty-fourths of a turn.

pub mod angle;
pub mod client;
pub mod entities;
pub mod math;
pub mod physics;
pub mod protocol;
pub mod rng;
pub mod scoring;
pub mod tick;
pub mod torus;
pub mod view;
pub mod world;

pub use torus::Vec2;
