//! Simulation core of a small interactive 2D scene: autonomous agents
//! ("crabs") wander a directed waypoint graph, a gesture classifier turns a
//! raw pointer stream into clicks or drags, a camera maps screen to world
//! space with clamped pan and zoom, and a collection resolver matches clicks
//! against collectible items on the ground or in agents' hands.
//!
//! All world quantities are fixed-point integers: coordinates and distances
//! are plain `i64` world units, rotations are measured in units of
//! 1/`ANGLE_TURN` of a full turn, and the linear part of a transform is
//! scaled by `TRIG_ONE`.

pub mod anim;
pub mod camera;
pub mod config;
pub mod events;
pub mod game;
pub mod geom;
pub mod gesture;
pub mod motion;
pub mod resolve;
pub mod rng;
pub mod roads;
