//! Drawing the spectrum as a chart.

pub mod axes;
pub mod canvas;
pub mod chart;
pub mod curve;
pub mod bmp;
pub mod text;
