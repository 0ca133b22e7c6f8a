//! The algebraic structures that the curves are built on.

pub mod fields;
pub mod groups;
