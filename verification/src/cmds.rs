//! The image transforms.

pub mod contrast;
pub mod saturation;
