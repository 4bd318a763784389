//! The strip's single-wire signal: every bit of a pixel becomes one pulse,
//! high for a while and then low, and the lengths of the two parts tell a
//! one from a zero. A pixel is sent green first, then red, then blue, each
//! colour byte from its most significant bit down.
use vstd::prelude::*;

use crate::pixel::RGBPixel;

verus! {

/// Ticks (of an 80 MHz clock) that a zero bit holds the line high.
pub const WS2812_T0H: u16 = 32;

/// Ticks that a zero bit holds the line low.
pub const WS2812_T0L: u16 = 68;

/// Ticks that a one bit holds the line high.
pub const WS2812_T1H: u16 = 64;

/// Ticks that a one bit holds the line low. The data sheet says 36; 48 keeps
/// the far end of a long strip from flickering.
pub const WS2812_T1L: u16 = 48;

/// Pulses per colour byte.
pub const PULSES_PER_BYTE: usize = 8;

/// Pulses per pixel.
pub const PULSES_PER_PIXEL: usize = 24;

/// One pulse: the line is at `level1` for `length1` ticks, then at `level2`
/// for `length2` ticks. `true` is high. A length of zero ends a
/// transmission.
#[derive(Copy, Clone, Debug, PartialEq, Eq, Structural)]
pub struct Pulse {
    pub level1: bool,
    pub length1: u16,
    pub level2: bool,
    pub length2: u16,
}

impl Pulse {
    /// The pulse of a zero bit: short high, long low.
    pub open spec fn zero_bit() -> Pulse {
        Pulse { level1: true, length1: WS2812_T0H, level2: false, length2: WS2812_T0L }
    }

    /// The pulse of a one bit: long high, short low.
    pub open spec fn one_bit() -> Pulse {
        Pulse { level1: true, length1: WS2812_T1H, level2: false, length2: WS2812_T1L }
    }

    /// The pulse of a bit.
    pub open spec fn of_bit(set: bool) -> Pulse {
        if set {
            Pulse::one_bit()
        } else {
            Pulse::zero_bit()
        }
    }

    /// The pulse that ends a transmission and leaves the line low.
    pub open spec fn terminator() -> Pulse {
        Pulse { level1: false, length1: 0, level2: false, length2: 0 }
    }

    /// Whether the pulse ends a transmission.
    pub open spec fn ends_transmission(self) -> bool {
        self.length1 == 0 || self.length2 == 0
    }

    pub fn new(level1: bool, length1: u16, level2: bool, length2: u16) -> (pulse: Self)
        ensures
            pulse == (Pulse { level1, length1, level2, length2 }),
    {
        Pulse { level1, length1, level2, length2 }
    }

    pub fn end_marker() -> (pulse: Self)
        ensures
            pulse == Pulse::terminator(),
            pulse.ends_transmission(),
    {
        Pulse { level1: false, length1: 0, level2: false, length2: 0 }
    }

    pub fn is_end_marker(&self) -> (ends: bool)
        ensures
            ends == self.ends_transmission(),
    {
        self.length1 == 0 || self.length2 == 0
    }
}

impl Default for Pulse {
    fn default() -> (pulse: Self)
        ensures
            pulse == Pulse::terminator(),
    {
        Pulse { level1: false, length1: 0, level2: false, length2: 0 }
    }
}

/// Bit `k` of `byte`, counted from the most significant bit.
pub open spec fn bit_set(byte: u8, k: int) -> bool {
    (byte >> ((7 - k) as u8)) & 1u8 == 1u8
}

/// The eight pulses of a byte, most significant bit first.
pub open spec fn byte_pulses(byte: u8) -> Seq<Pulse> {
    Seq::new(8, |k: int| Pulse::of_bit(bit_set(byte, k)))
}

/// The twenty-four pulses of a pixel: green, red, blue.
pub open spec fn pixel_pulses(pixel: RGBPixel) -> Seq<Pulse> {
    byte_pulses(pixel.g) + byte_pulses(pixel.r) + byte_pulses(pixel.b)
}

/// The pulses of a run of pixels, one pixel after the other, and the
/// terminator behind the last.
pub open spec fn strip_pulses(pixels: Seq<RGBPixel>) -> Seq<Pulse> {
    Seq::new(
        24 * pixels.len() + 1,
        |j: int|
            if j < 24 * pixels.len() {
                pixel_pulses(pixels[j / 24])[j % 24]
            } else {
                Pulse::terminator()
            },
    )
}

/// Writes the eight pulses of `byte` to `pulses[at..at + 8]`.
pub fn byte_to_pulses(byte: u8, pulses: &mut [Pulse], at: usize)
    requires
        at + 8 <= old(pulses).len(),
    ensures
        final(pulses).len() == old(pulses).len(),
        forall|k: int| 0 <= k < 8 ==> final(pulses)[at + k] == byte_pulses(byte)[k],
        forall|j: int|
            0 <= j < old(pulses).len() && !(at <= j < at + 8) ==> final(pulses)[j] == old(
                pulses,
            )[j],
{
    let mut i: usize = 0;
    while i < 8
        invariant
            i <= 8,
            pulses.len() == old(pulses).len(),
            at + 8 <= pulses.len(),
            forall|k: int| 0 <= k < i ==> pulses[at + k] == byte_pulses(byte)[k],
            forall|j: int|
                0 <= j < old(pulses).len() && !(at <= j < at + 8) ==> pulses[j] == old(pulses)[j],
        decreases 8 - i,
    {
        let shift: u8 = (7 - i) as u8;
        let bit = (byte >> shift) & 1;
        pulses[at + i] = if bit == 1 {
            Pulse::new(true, WS2812_T1H, false, WS2812_T1L)
        } else {
            Pulse::new(true, WS2812_T0H, false, WS2812_T0L)
        };
        i = i + 1;
    }
}

/// Writes the twenty-four pulses of `pixel` to `pulses[at..at + 24]`.
pub fn rgb_to_pulses_at(pixel: &RGBPixel, pulses: &mut [Pulse], at: usize)
    requires
        at + 24 <= old(pulses).len(),
    ensures
        final(pulses).len() == old(pulses).len(),
        forall|k: int| 0 <= k < 24 ==> final(pulses)[at + k] == pixel_pulses(*pixel)[k],
        forall|j: int|
            0 <= j < old(pulses).len() && !(at <= j < at + 24) ==> final(pulses)[j] == old(
                pulses,
            )[j],
{
    byte_to_pulses(pixel.g, pulses, at);
    byte_to_pulses(pixel.r, pulses, at + 8);
    byte_to_pulses(pixel.b, pulses, at + 16);
}

/// Writes the twenty-four pulses of `pixel` to the start of `pulses`.
pub fn rgb_to_pulses(pixel: &RGBPixel, pulses: &mut [Pulse])
    requires
        old(pulses).len() >= 24,
    ensures
        final(pulses).len() == old(pulses).len(),
        final(pulses)@.take(24) == pixel_pulses(*pixel),
        final(pulses)@.skip(24) == old(pulses)@.skip(24),
{
    rgb_to_pulses_at(pixel, pulses, 0);
}

/// A byte without set bits is sent as eight zero pulses.
pub proof fn lemma_zero_byte_pulses()
    ensures
        byte_pulses(0) == Seq::new(8, |k: int| Pulse::zero_bit()),
{
    assert forall|k: int| 0 <= k < 8 implies !bit_set(0, k) by {
        let s = (7 - k) as u8;
        assert(s < 8 ==> (0u8 >> s) & 1u8 != 1u8) by (bit_vector);
    }
}

/// A dark pixel is sent as twenty-four zero pulses.
pub proof fn lemma_dark_pixel_pulses()
    ensures
        pixel_pulses(RGBPixel::dark()) == Seq::new(24, |k: int| Pulse::zero_bit()),
{
    lemma_zero_byte_pulses();
}

} // verus!
