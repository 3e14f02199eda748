//! Escape-time fractal rendering into dense RGB pixel buffers.
//!
//! The crate owns everything about a rendering that is decided by integers:
//! the layout of the pixel grid, the order in which it is filled, the
//! background gradient, the bound on the iteration count and the way pixel
//! coordinates are handed to the complex plane. The arithmetic on the plane
//! itself is supplied by the caller, so the same verified renderer serves any
//! number type.

pub mod buffer;
pub mod color;
pub mod config;
pub mod escape;
pub mod fractal;
pub mod solid;
