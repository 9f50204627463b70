use vstd::prelude::*;

verus! {

/// An RGB colour, one byte per channel.
#[derive(Clone, Copy, Debug, PartialEq, Eq, Structural)]
pub struct Rgb {
    pub r: u8,
    pub g: u8,
    pub b: u8,
}

impl Rgb {
    pub fn new(r: u8, g: u8, b: u8) -> (c: Rgb)
        ensures
            c.r == r && c.g == g && c.b == b,
    {
        Rgb { r, g, b }
    }

    pub fn black() -> (c: Rgb)
        ensures
            c.r == 0 && c.g == 0 && c.b == 0,
    {
        Rgb { r: 0, g: 0, b: 0 }
    }

    pub fn white() -> (c: Rgb)
        ensures
            c.r == 255 && c.g == 255 && c.b == 255,
    {
        Rgb { r: 255, g: 255, b: 255 }
    }

    /// The three channels in red, green, blue order.
    pub fn to_array(&self) -> (a: [u8; 3])
        ensures
            a@ == seq![self.r, self.g, self.b],
    {
        let a = [self.r, self.g, self.b];
        assert(a@ =~= seq![self.r, self.g, self.b]);
        a
    }
}

} // verus!
