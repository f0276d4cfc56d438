//! Verified core of a Mandelbrot-set renderer.
//!
//! Floating-point arithmetic (complex squaring, logarithms, the HSV
//! sector formula) is done by the caller; this crate holds everything
//! that can be stated over integers and IEEE-754 bit patterns: the
//! ULP-based fuzzy equality that drives cycle detection, the
//! escape-time loop's decisions, the final color selection with its
//! red/blue swap, antialias averaging, and image assembly.

pub mod color;
pub mod complex;
pub mod engine;
pub mod render;
