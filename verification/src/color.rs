//! Colours of the pixel grid.

use vstd::prelude::*;

verus! {

/// One pixel: three 8-bit channels.
#[derive(Clone, Copy, Debug, PartialEq, Eq, Structural)]
pub struct Rgb {
    pub red: u8,
    pub green: u8,
    pub blue: u8,
}

impl Rgb {
    /// The colour with all three channels at zero.
    pub open spec fn black() -> Rgb {
        Rgb { red: 0, green: 0, blue: 0 }
    }

    /// Builds a colour from its three channels.
    pub fn new(red: u8, green: u8, blue: u8) -> (color: Rgb)
        ensures
            color == (Rgb { red, green, blue }),
    {
        Rgb { red, green, blue }
    }
}

} // verus!
