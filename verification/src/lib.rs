//! Deterministic simulation core of a single-screen arcade shooter.
//!
//! A player ship defends a row of castles against a marching, descending
//! formation of enemies. The crate holds the rules of that game as verified
//! functions over plain values: coordinates are fixed-point integers
//! (thousandths of a pixel), time advances in whole milliseconds, and every
//! random decision is taken from a roll that the caller can supply.

pub mod geometry;
pub mod components;
pub mod combat;
pub mod dice;
pub mod events;
pub mod resources;
pub mod formation;
pub mod movement;
pub mod spawn;
pub mod phase;
pub mod world;
pub mod invariants;
