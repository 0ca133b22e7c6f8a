//! The Baby JubJub curve: a twisted Edwards curve over the scalar field of
//! the BN254 pairing curve.

pub mod certificate;
pub mod curve;
pub mod ff;
