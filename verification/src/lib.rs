//! Core of a driver for an addressable RGB LED strip: colour conversion,
//! the pulse encoding of pixels, the checksummed command frames that arrive
//! over a serial link, the queue and parser that turn received bytes into
//! commands, and the strip state those commands act on.
//!
//! The library does no floating-point arithmetic. Brightness, phase and the
//! other fractional settings are carried as IEEE 754 binary32 bit patterns
//! (`u32`), exactly as they arrive on the wire; whoever drives the strip does
//! the arithmetic on them and hands the integer results to
//! [`LEDStrip::update_pixels`] as a [`Shading`].
use vstd::prelude::*;

pub mod checksum;
pub mod color;
pub mod command;
pub mod framing;
pub mod parser;
pub mod pixel;
pub mod pulse;
pub mod queue;
pub mod strip;

pub use crate::color::hsv_to_rgb;
pub use crate::command::SerialCommand;
pub use crate::parser::{AssemblyBuffer, SerialParser};
pub use crate::pixel::RGBPixel;
pub use crate::pulse::{rgb_to_pulses, Pulse};
pub use crate::queue::ByteQueue;
pub use crate::strip::{LEDStrip, Shading, StripSetting, PULSE_LEN};

verus! {

/// Number of pixels on the strip.
pub const NUM_LEDS: usize = 280;

} // verus!
