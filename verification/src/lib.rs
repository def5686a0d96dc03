//! Narrow-phase collision detection for convex shapes on a fixed-point lattice.
//!
//! Shapes are known to the algorithms through their support functions alone.
//! The closest points of two shapes, or the fact that they meet, are found by
//! refining a simplex inside their Minkowski difference; a persistent
//! generator turns the outcome into tracked contacts, step after step.

pub mod geom;
pub mod implicit;
pub mod math;
pub mod narrow;
pub mod pipeline;
pub mod query;
pub mod utils;
