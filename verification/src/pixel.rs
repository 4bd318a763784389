use vstd::prelude::*;

verus! {

/// One pixel: three 8-bit colour channels.
#[derive(Copy, Clone, Debug, PartialEq, Eq, Structural)]
pub struct RGBPixel {
    pub r: u8,
    pub g: u8,
    pub b: u8,
}

impl RGBPixel {
    pub fn new(r: u8, g: u8, b: u8) -> (pixel: Self)
        ensures
            pixel == (RGBPixel { r, g, b }),
    {
        Self { r, g, b }
    }

    /// The dark pixel.
    pub open spec fn dark() -> RGBPixel {
        RGBPixel { r: 0, g: 0, b: 0 }
    }

    pub fn off() -> (pixel: Self)
        ensures
            pixel == RGBPixel::dark(),
    {
        Self { r: 0, g: 0, b: 0 }
    }

    pub fn blue() -> (pixel: Self)
        ensures
            pixel == (RGBPixel { r: 0, g: 0, b: 255 }),
    {
        Self { r: 0, g: 0, b: 255 }
    }

    pub fn red() -> (pixel: Self)
        ensures
            pixel == (RGBPixel { r: 255, g: 0, b: 0 }),
    {
        Self { r: 255, g: 0, b: 0 }
    }

    pub fn green() -> (pixel: Self)
        ensures
            pixel == (RGBPixel { r: 0, g: 255, b: 0 }),
    {
        Self { r: 0, g: 255, b: 0 }
    }
}

impl Default for RGBPixel {
    fn default() -> (pixel: Self)
        ensures
            pixel == RGBPixel::dark(),
    {
        Self { r: 0, g: 0, b: 0 }
    }
}

} // verus!
