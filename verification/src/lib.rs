//! Escape-time rendering of the Mandelbrot set, integer core.
//!
//! A point `c` of the complex plane is coloured by how many steps of
//! `z <- z^2 + c` its orbit needs to leave the disc of radius 2. The orbit
//! itself is floating-point work and belongs to the caller; this crate holds
//! everything around it that is decided by integers: when an evaluation stops
//! and what it returns, how an iteration count becomes a colour, and how a
//! grid of counts becomes a row-major RGBA buffer.

pub mod color;
pub mod escape;
pub mod raster;

pub use color::{iteration_to_color, pixel_rgba};
pub use escape::escape_step;
pub use raster::{buffer_len, render, render_checked, SCALAR_MAX_ITER};
