//! Helpers shared by the transforms.

pub mod color;
pub mod round_trip;
