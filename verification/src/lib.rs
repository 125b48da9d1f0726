//! Per-pixel colour transforms on 8-bit RGB images: a linear contrast stretch
//! around a threshold and two saturation models, all in exact integer
//! arithmetic over fixed-point parameters.

pub mod cmds;
pub mod error;
pub mod fixed;
pub mod raster;
pub mod readme;
pub mod utils;
