//! Hue, saturation and value to red, green and blue, in integers.
use vstd::prelude::*;

use crate::pixel::RGBPixel;

verus! {

/// Chroma: the distance between the strongest and the weakest channel.
pub open spec fn chroma(s: u8, v: u8) -> int {
    (v as int * s as int) / 255
}

/// The channel that moves within a sector of the hue circle: it rises from
/// 0 towards `c` across an even sector and falls from `c` towards 0 across
/// an odd one. `h` is a hue below 360.
pub open spec fn ramp(c: int, h: int) -> int {
    if (h / 60) % 2 == 0 {
        (c * (h % 60)) / 60
    } else {
        (c * (60 - h % 60)) / 60
    }
}

/// The colour of hue `h` (in degrees, taken modulo 360), saturation `s` and
/// value `v`. The six sectors of the hue circle run from red through
/// yellow, green, cyan, blue and magenta back to red.
pub open spec fn hsv_color(h: u16, s: u8, v: u8) -> RGBPixel {
    let hue = h as int % 360;
    let c = chroma(s, v);
    let x = ramp(c, hue);
    let m = v as int - c;
    let sector = hue / 60;
    if sector == 0 {
        RGBPixel { r: (c + m) as u8, g: (x + m) as u8, b: m as u8 }
    } else if sector == 1 {
        RGBPixel { r: (x + m) as u8, g: (c + m) as u8, b: m as u8 }
    } else if sector == 2 {
        RGBPixel { r: m as u8, g: (c + m) as u8, b: (x + m) as u8 }
    } else if sector == 3 {
        RGBPixel { r: m as u8, g: (x + m) as u8, b: (c + m) as u8 }
    } else if sector == 4 {
        RGBPixel { r: (x + m) as u8, g: m as u8, b: (c + m) as u8 }
    } else {
        RGBPixel { r: (c + m) as u8, g: m as u8, b: (x + m) as u8 }
    }
}

/// Chroma never exceeds the value, and the moving channel never exceeds
/// chroma.
pub proof fn lemma_ramp_bounds(h: int, s: u8, v: u8)
    requires
        0 <= h < 360,
    ensures
        0 <= chroma(s, v) <= v,
        0 <= ramp(chroma(s, v), h) <= chroma(s, v),
{
    let c = chroma(s, v);
    assert(0 <= v as int * s as int <= v as int * 255) by (nonlinear_arith);
    let pos = h % 60;
    assert(0 <= c * pos <= c * 60) by (nonlinear_arith)
        requires
            0 <= c,
            0 <= pos <= 60,
    ;
    assert(0 <= c * (60 - pos) <= c * 60) by (nonlinear_arith)
        requires
            0 <= c,
            0 <= pos <= 60,
    ;
}

/// Every channel of the colour lies between `v` less chroma and `v`; the
/// strongest channel is `v`, the weakest is `v` less chroma.
pub proof fn lemma_hsv_channels(h: u16, s: u8, v: u8)
    ensures
        ({
            let p = hsv_color(h, s, v);
            let low = v - chroma(s, v);
            &&& low <= p.r <= v && low <= p.g <= v && low <= p.b <= v
            &&& p.r == v || p.g == v || p.b == v
            &&& p.r == low || p.g == low || p.b == low
        }),
{
    lemma_ramp_bounds(h as int % 360, s, v);
}

/// Without saturation every hue is the grey of the value.
pub proof fn lemma_hsv_grey(h: u16, v: u8)
    ensures
        hsv_color(h, 0, v) == (RGBPixel { r: v, g: v, b: v }),
{
    lemma_ramp_bounds(h as int % 360, 0, v);
}

/// Hues a full turn apart are the same colour.
pub proof fn lemma_hsv_full_turn(h: u16, s: u8, v: u8)
    requires
        h as int + 360 <= u16::MAX,
    ensures
        hsv_color((h + 360) as u16, s, v) == hsv_color(h, s, v),
{
}

/// The colour of hue `h` (degrees, modulo 360), saturation `s`, value `v`.
pub fn hsv_to_rgb(h: u16, s: u8, v: u8) -> (pixel: RGBPixel)
    ensures
        pixel == hsv_color(h, s, v),
        pixel.r <= v && pixel.g <= v && pixel.b <= v,
{
    let h = h % 360;
    proof {
        assert(0 <= v as int * s as int <= 255 * 255) by (nonlinear_arith);
    }
    let c: u32 = (v as u32 * s as u32) / 255;
    let sector: u32 = h as u32 / 60;
    let pos: u32 = h as u32 % 60;
    proof {
        lemma_ramp_bounds(h as int, s, v);
        assert(c * pos <= 255 * 60) by (nonlinear_arith)
            requires
                c <= 255,
                pos <= 60,
        ;
        assert(c * (60 - pos) <= 255 * 60) by (nonlinear_arith)
            requires
                c <= 255,
                0 <= pos <= 60,
        ;
    }
    let x: u32 = if sector % 2 == 0 {
        (c * pos) / 60
    } else {
        (c * (60 - pos)) / 60
    };
    let m: u32 = v as u32 - c;
    let (r1, g1, b1): (u32, u32, u32) = if sector == 0 {
        (c, x, 0)
    } else if sector == 1 {
        (x, c, 0)
    } else if sector == 2 {
        (0, c, x)
    } else if sector == 3 {
        (0, x, c)
    } else if sector == 4 {
        (x, 0, c)
    } else {
        (c, 0, x)
    };
    RGBPixel { r: (r1 + m) as u8, g: (g1 + m) as u8, b: (b1 + m) as u8 }
}

} // verus!
