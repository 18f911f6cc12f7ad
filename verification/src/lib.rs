//! Verified escape-time Mandelbrot renderer.
//!
//! The evaluation pipeline works in fixed-point arithmetic: a coordinate on
//! the complex plane is an `i64` holding the real value scaled by `SCALE`.
//! Every stage, from the per-point escape iteration to the packed grayscale
//! frame, carries a contract that pins its result down exactly.

pub mod controller;
pub mod escape;
pub mod fixed;
pub mod framebuffer;
pub mod raster;
