//! Concrete curves.

pub mod baby_jubjub;
