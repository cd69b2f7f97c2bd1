//! Height maps to normal maps: the integer part of the per-pixel transform.
//!
//! A height map is a grid of intensity bytes. For every cell the library
//! gathers the eight neighbouring intensities, clamping at the border, and
//! estimates the surface gradient with a 3x3 Sobel kernel. Values are kept in
//! units of 1/255, so every step here is exact integer arithmetic.
pub mod args;
pub mod gradient;
pub mod grid;
pub mod number;
pub mod sampler;

pub use args::{directx_validator, strength_validator};
pub use grid::LumaGrid;
pub use sampler::{neighborhoods, AdjPixels};
