//! A verified core for a pannable, zoomable view onto a grid of colored
//! cells.
//!
//! The viewport transform maps grid space to canvas space through a
//! zoom scale and a pixel offset; the rasterizer inverts it to produce
//! a row-major RGBA buffer for the visible window; the gesture
//! interpreter turns touch frames into pan and pinch-zoom updates of
//! the transform, rejecting shapes it does not support.
//!
//! Coordinates, offsets and the zoom scale are fixed-point numbers: an
//! `i64` counts units of `1 / FP_ONE` canvas pixels. All transform math
//! is exact integer arithmetic, so every operation carries a contract
//! that pins its result down completely.
//!
//! - [`fixed`]: fixed-point scalars, floor division, integer square root
//! - [`vector`]: 2D vectors over fixed-point scalars
//! - [`color`]: RGBA cell colors and the out-of-bounds sentinel
//! - [`grid`]: the column-major grid of cells being viewed
//! - [`viewport`]: the scale-plus-offset transform, pan and zoom
//! - [`raster`]: the grid-to-pixel-buffer rasterizer
//! - [`gesture`]: the multi-touch gesture interpreter

pub mod color;
pub mod fixed;
pub mod gesture;
pub mod grid;
pub mod raster;
pub mod vector;
pub mod viewport;
