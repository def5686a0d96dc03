//! The stages of collision detection.

pub mod narrow_phase;
