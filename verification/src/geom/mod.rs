//! Shapes, and the shapes made of other shapes.

pub mod annotated_point;
pub mod ball;
pub mod cone;
pub mod cuboid;
pub mod cylinder;
pub mod geom_with_margin;
pub mod minkowski_sum;
pub mod plane;
pub mod reflection;
