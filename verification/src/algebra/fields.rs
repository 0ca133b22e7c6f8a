//! Fields.

pub mod prime;
