//! A fixed-point core for a real-time-strategy battlefield: units that
//! carry out queued orders, fight, mine and are built, and the directors
//! that send waves against them.
//!
//! Lengths are whole thousandths of a world unit, times are whole
//! milliseconds, and speeds are world units per second, so that a speed
//! multiplied by an elapsed time is directly a length.

pub mod brain;
pub mod combat;
pub mod cooldown;
pub mod geometry;
pub mod laws;
pub mod materials;
pub mod movement;
pub mod orders;
pub mod preview;
pub mod production;
pub mod random;
pub mod roster;
pub mod selection;
pub mod session;
pub mod steering;
pub mod units;
pub mod world;
