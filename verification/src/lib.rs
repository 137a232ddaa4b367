//! The integer state and the input handling of a GPU Mandelbrot set viewer.
//!
//! The viewer draws the set on the GPU with 32-bit floats; what it decides
//! about sizes, precision, the monitors it spans and what each input event
//! does is held here as plain integers and booleans.

pub mod vec2;
pub mod params;
pub mod screen;
pub mod controls;
