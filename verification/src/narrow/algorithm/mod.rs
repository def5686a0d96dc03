//! The closest-point algorithms and the simplex that they refine.

pub mod gjk;
pub mod simplex;
pub mod voronoi_simplex;
