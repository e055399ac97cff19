//! Road lengths from hand-drawn traces: path sampling, pixel-length
//! accumulation, style classification and calibration against one
//! reference trace of known real-world length.

pub mod geometry;
pub mod error;
pub mod path;
pub mod style;
pub mod calibration;
