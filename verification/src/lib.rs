//! Deterministic fixed-point 2D collision detection and physics resolution.
//!
//! The crate is layered bottom-up: a saturating fixed-point scalar ([`q64`]),
//! 2D vectors ([`qvec2`]) and rotations ([`qdir`]) built on it, shape
//! primitives ([`shape`]), the separating-axis collision test
//! ([`collision`]), the Minkowski-difference and separation-vector
//! algorithms ([`algorithm`]), physics components ([`physics`]), collision
//! and trigger events ([`messages`]), and the staged simulation pipeline
//! ([`pipeline`]).

pub mod algorithm;
pub mod collision;
pub mod messages;
pub mod physics;
pub mod pipeline;
pub mod q64;
pub mod qdir;
pub mod qvec2;
pub mod shape;
