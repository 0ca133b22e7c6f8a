//! Groups.

pub mod closure;
pub mod ecg;
