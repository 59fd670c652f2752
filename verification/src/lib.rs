//! Verified core of a small image editor: argument grammar, pixel grids,
//! the transformations applied to them, two generators and the order in
//! which requested operations run.

pub mod generate;
pub mod ops;
pub mod plan;
pub mod raster;
pub mod text;
