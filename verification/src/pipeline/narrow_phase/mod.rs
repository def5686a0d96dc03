//! The stage that looks at one pair of shapes at a time.

pub mod contact_generator;
