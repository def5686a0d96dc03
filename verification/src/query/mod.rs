//! What a narrow phase reports about a pair of shapes.

pub mod contact;
pub mod contact_kinematic;
pub mod contact_manifold;
