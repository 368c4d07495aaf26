//! RGBA color values, 8 bits per channel.

use vstd::prelude::*;

verus! {

/// One color with red, green, blue and alpha channels.
#[derive(Clone, Copy, PartialEq, Eq, Structural, Debug)]
pub struct Rgba {
    pub r: u8,
    pub g: u8,
    pub b: u8,
    pub a: u8,
}

impl View for Rgba {
    type V = (u8, u8, u8, u8);

    open spec fn view(&self) -> (u8, u8, u8, u8) {
        (self.r, self.g, self.b, self.a)
    }
}

} // verus!
