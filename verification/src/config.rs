//! What a rendering is configured by.

use vstd::prelude::*;

verus! {

/// The width of the standard picture, in pixels.
pub const STANDARD_WIDTH: u32 = 800;

/// The height of the standard picture, in pixels.
pub const STANDARD_HEIGHT: u32 = 800;

/// The cap on the steps per pixel in the standard picture. It is the largest
/// count that a colour channel can show.
pub const STANDARD_MAX_ITERATIONS: u8 = 255;

/// A point of the complex plane over the number type `T`.
#[derive(Clone, Copy, Debug, PartialEq)]
pub struct ComplexPoint<T> {
    pub re: T,
    pub im: T,
}

/// Everything a rendering depends on besides the arithmetic of `T`: the
/// dimensions of the picture, the constant `c` of the map `z -> z*z + c`, the
/// radius of the disc that a point must leave to count as escaped, and the
/// cap on the number of steps per pixel.
#[derive(Clone, Copy, Debug, PartialEq)]
pub struct FractalConfig<T> {
    pub width: u32,
    pub height: u32,
    pub constant: ComplexPoint<T>,
    pub radius: T,
    pub max_iterations: u8,
}

impl<T> FractalConfig<T> {
    /// The standard picture for the given map constant and escape radius:
    /// 800 by 800 pixels, at most 255 steps per pixel. The classic choice is
    /// the constant -2/5 + 3/5 i with the radius 2.
    pub fn standard(constant: ComplexPoint<T>, radius: T) -> (config: FractalConfig<T>)
        ensures
            config == (FractalConfig {
                width: 800,
                height: 800,
                constant,
                radius,
                max_iterations: 255,
            }),
    {
        FractalConfig {
            width: STANDARD_WIDTH,
            height: STANDARD_HEIGHT,
            constant,
            radius,
            max_iterations: STANDARD_MAX_ITERATIONS,
        }
    }

    /// The same configuration for a picture of other dimensions.
    pub fn with_dimensions(self, width: u32, height: u32) -> (config: FractalConfig<T>)
        ensures
            config == (FractalConfig { width, height, ..self }),
    {
        FractalConfig { width, height, ..self }
    }

    /// The same configuration with another cap on the steps per pixel.
    pub fn with_max_iterations(self, max_iterations: u8) -> (config: FractalConfig<T>)
        ensures
            config == (FractalConfig { max_iterations, ..self }),
    {
        FractalConfig { max_iterations, ..self }
    }
}

} // verus!
