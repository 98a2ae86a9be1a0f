//! Turns a raster image into footprint polygons: every significant pixel
//! becomes a filled outline, inset by a clearance where it borders a pixel of
//! the other class.

pub mod analyze;
pub mod footprint;
pub mod generate;
pub mod geometry;
pub mod sizes;
