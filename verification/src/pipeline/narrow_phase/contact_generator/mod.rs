//! Persistent collision detection algorithms to compute contact points.

pub mod support_map_support_map_manifold_generator;
