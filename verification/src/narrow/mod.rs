//! Algorithms on pairs of shapes.

pub mod algorithm;
