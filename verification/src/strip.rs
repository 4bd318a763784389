//! The strip: its pixels, the mode that paints them, and the settings that
//! commands change.
use vstd::prelude::*;

use crate::color::{hsv_color, hsv_to_rgb};
use crate::command::{be16, be32, read_be16, read_be32, CommandView, SerialCommand,
    MAX_PAYLOAD};
use crate::pixel::RGBPixel;
use crate::pulse::{pixel_pulses, rgb_to_pulses_at, strip_pulses, Pulse};
use crate::NUM_LEDS;

verus! {

/// Length of the pulse buffer: twenty-four pulses per pixel and the
/// terminator.
pub const PULSE_LEN: usize = 6721;

/// The bit pattern of 1.0.
pub const BITS_ONE: u32 = 0x3F80_0000;

/// The bit pattern of 0.01, nearest binary32 value.
pub const BITS_ONE_HUNDREDTH: u32 = 0x3C23_D70A;

/// How the strip is painted on each tick.
#[derive(Copy, Clone, Debug, PartialEq, Eq, Structural)]
pub enum StripSetting {
    /// Every pixel dark.
    Off,
    /// The pixels are what commands wrote; a tick leaves them alone.
    Custom,
    /// One colour for every pixel, its brightness rising and falling with
    /// the phase.
    Breathing { r: u8, g: u8, b: u8 },
    /// One colour for every pixel.
    SolidColor { r: u8, g: u8, b: u8 },
    /// The hue circle laid along the strip `cycles` times (the bit pattern
    /// of a binary32 number), moving with the phase.
    RainbowCycle { cycles: u32 },
}

/// What one tick needs from floating-point arithmetic, as integers.
pub struct Shading {
    /// `levels[c]` is channel value `c` after scaling by the brightness in
    /// force (for `Breathing`, times the envelope of the phase), held to
    /// 0..=255 and truncated.
    pub levels: [u8; 256],
    /// `hues[i]` is the hue of pixel `i` under `RainbowCycle`, in degrees.
    pub hues: [u16; NUM_LEDS],
    /// The phase after the tick: the phase plus the phase step, modulo 1.
    pub next_phase: u32,
}

/// The strip and its settings. The fractional settings are bit patterns of
/// binary32 numbers.
pub struct LEDStrip {
    /// Whether a tick paints anything.
    is_on: bool,
    pixels: [RGBPixel; NUM_LEDS],
    pulse_data: [Pulse; PULSE_LEN],
    setting: StripSetting,
    /// Scale of every channel; above 1.0 brightens.
    brightness: u32,
    /// Position within the animation, from 0.0 up to 1.0.
    phase: u32,
    /// What a tick adds to the phase.
    phase_step: u32,
    /// How many pixels, from the first, are sent to the strip.
    num_leds_to_update: usize,
    frames_per_second: u8,
}

/// The state of a strip.
pub struct StripView {
    pub is_on: bool,
    pub pixels: Seq<RGBPixel>,
    pub pulses: Seq<Pulse>,
    pub setting: StripSetting,
    pub brightness: u32,
    pub phase: u32,
    pub phase_step: u32,
    pub active_leds: int,
    pub frames_per_second: u8,
}

impl StripView {
    /// The buffers have their lengths, and no more pixels are sent than the
    /// strip has.
    pub open spec fn well_formed(self) -> bool {
        &&& self.pixels.len() == NUM_LEDS
        &&& self.pulses.len() == PULSE_LEN
        &&& 0 <= self.active_leds <= NUM_LEDS
    }

    /// Whether a tick paints: the strip is on and its mode is not `Off`.
    pub open spec fn lit(self) -> bool {
        self.is_on && !(self.setting is Off)
    }
}

/// A pixel with each channel looked up in `levels`.
pub open spec fn shaded(pixel: RGBPixel, levels: Seq<u8>) -> RGBPixel {
    RGBPixel { r: levels[pixel.r as int], g: levels[pixel.g as int], b: levels[pixel.b as int] }
}

/// Pixel `i` after a tick.
pub open spec fn painted_pixel(state: StripView, shading: Shading, i: int) -> RGBPixel {
    if !state.is_on {
        RGBPixel::dark()
    } else {
        match state.setting {
            StripSetting::Off => RGBPixel::dark(),
            StripSetting::Custom => state.pixels[i],
            StripSetting::Breathing { r, g, b } => shaded(RGBPixel { r, g, b }, shading.levels@),
            StripSetting::SolidColor { r, g, b } => shaded(RGBPixel { r, g, b }, shading.levels@),
            StripSetting::RainbowCycle { cycles } => shaded(
                hsv_color(shading.hues[i], 255, 255),
                shading.levels@,
            ),
        }
    }
}

/// The state after a tick: every pixel painted by the mode, and the phase
/// moved on if the strip paints at all.
pub open spec fn ticked(state: StripView, shading: Shading) -> StripView {
    StripView {
        pixels: Seq::new(state.pixels.len(), |i: int| painted_pixel(state, shading, i)),
        phase: if state.lit() {
            shading.next_phase
        } else {
            state.phase
        },
        ..state
    }
}

/// The mode that a mode command selects. `payload[0]` is 0 to 3.
pub open spec fn selected_mode(payload: Seq<u8>) -> StripSetting {
    if payload[0] == 0x00 {
        StripSetting::Custom
    } else if payload[0] == 0x01 {
        StripSetting::Breathing { r: payload[1], g: payload[2], b: payload[3] }
    } else if payload[0] == 0x02 {
        StripSetting::SolidColor { r: payload[1], g: payload[2], b: payload[3] }
    } else {
        StripSetting::RainbowCycle { cycles: be32(payload[1], payload[2], payload[3], payload[4]) }
    }
}

/// The pixels after a run of colours is written from index `start` on.
/// `colors` holds three bytes per pixel, red first; bytes that do not make
/// a full pixel, and pixels past the end of the strip, are dropped.
pub open spec fn with_run(pixels: Seq<RGBPixel>, start: int, colors: Seq<u8>) -> Seq<RGBPixel> {
    Seq::new(
        pixels.len(),
        |j: int|
            if start <= j < start + colors.len() / 3 {
                RGBPixel {
                    r: colors[3 * (j - start)],
                    g: colors[3 * (j - start) + 1],
                    b: colors[3 * (j - start) + 2],
                }
            } else {
                pixels[j]
            },
    )
}

/// The state after a command. A command whose action is unknown, whose
/// mode is unknown or whose payload is too short changes nothing.
pub open spec fn applied(state: StripView, command: CommandView) -> StripView {
    let p = command.payload;
    if !command.long_enough() {
        state
    } else if command.action == 0x01 {
        StripView { is_on: p[0] != 0, ..state }
    } else if command.action == 0x02 {
        StripView { brightness: be32(p[0], p[1], p[2], p[3]), ..state }
    } else if command.action == 0x03 {
        StripView { setting: selected_mode(p), ..state }
    } else if command.action == 0x04 {
        StripView {
            setting: StripSetting::Custom,
            pixels: with_run(state.pixels, be16(p[0], p[1]) as int, p.skip(2)),
            ..state
        }
    } else if command.action == 0x05 {
        StripView { phase_step: be32(p[0], p[1], p[2], p[3]), ..state }
    } else if command.action == 0x06 {
        StripView {
            active_leds: if be16(p[0], p[1]) <= NUM_LEDS {
                be16(p[0], p[1]) as int
            } else {
                NUM_LEDS as int
            },
            ..state
        }
    } else {
        StripView { frames_per_second: p[0], ..state }
    }
}

/// What is sent to the strip: the pulses of the first `active` pixels (of
/// all of them where `active` is not below the strip's length), then the
/// terminator.
pub open spec fn transmission(pulses: Seq<Pulse>, active: int) -> Seq<Pulse> {
    pulses.take(24 * sent_pixels(active)).push(Pulse::terminator())
}

/// How many pixels are sent: `active`, held to the strip's length.
pub open spec fn sent_pixels(active: int) -> int {
    if active < NUM_LEDS {
        active
    } else {
        NUM_LEDS as int
    }
}

impl View for LEDStrip {
    type V = StripView;

    closed spec fn view(&self) -> StripView {
        StripView {
            is_on: self.is_on,
            pixels: self.pixels@,
            pulses: self.pulse_data@,
            setting: self.setting,
            brightness: self.brightness,
            phase: self.phase,
            phase_step: self.phase_step,
            active_leds: self.num_leds_to_update as int,
            frames_per_second: self.frames_per_second,
        }
    }
}

impl Default for LEDStrip {
    fn default() -> (strip: Self)
        ensures
            strip@ == LEDStrip::initial(),
    {
        Self::new()
    }
}

impl LEDStrip {
    /// The state of a new strip: on, dark, in `Custom` mode, at brightness
    /// 1.0 and phase 0.0, with a phase step of 0.01, all pixels sent, 25
    /// frames per second.
    pub open spec fn initial() -> StripView {
        StripView {
            is_on: true,
            pixels: Seq::new(NUM_LEDS as nat, |i: int| RGBPixel::dark()),
            pulses: Seq::new(PULSE_LEN as nat, |i: int| Pulse::terminator()),
            setting: StripSetting::Custom,
            brightness: BITS_ONE,
            phase: 0,
            phase_step: BITS_ONE_HUNDREDTH,
            active_leds: NUM_LEDS as int,
            frames_per_second: 25,
        }
    }

    /// A new strip.
    pub fn new() -> (strip: Self)
        ensures
            strip@ == LEDStrip::initial(),
            strip@.well_formed(),
    {
        let strip = Self {
            is_on: true,
            pixels: [RGBPixel::off(); NUM_LEDS],
            pulse_data: [Pulse::end_marker(); PULSE_LEN],
            setting: StripSetting::Custom,
            brightness: BITS_ONE,
            phase: 0,
            phase_step: BITS_ONE_HUNDREDTH,
            num_leds_to_update: NUM_LEDS,
            frames_per_second: 25,
        };
        proof {
            assert(strip@.pixels =~= Seq::new(NUM_LEDS as nat, |i: int| RGBPixel::dark()));
            assert(strip@.pulses =~= Seq::new(PULSE_LEN as nat, |i: int| Pulse::terminator()));
        }
        strip
    }

    /// The buffers of every strip have their lengths.
    pub proof fn lemma_lengths(&self)
        ensures
            self@.pixels.len() == NUM_LEDS,
            self@.pulses.len() == PULSE_LEN,
            self@.active_leds >= 0,
    {
    }

    /// Sets pixel `index`; an index past the end of the strip is ignored.
    pub fn set_pixel(&mut self, index: usize, pixel: RGBPixel)
        ensures
            final(self)@ == if index < NUM_LEDS {
                StripView { pixels: old(self)@.pixels.update(index as int, pixel), ..old(self)@ }
            } else {
                old(self)@
            },
    {
        if index < NUM_LEDS {
            self.pixels[index] = pixel;
        }
    }

    pub fn get_pixel(&self, index: usize) -> (pixel: Option<&RGBPixel>)
        ensures
            index < NUM_LEDS ==> pixel == Some(&self@.pixels[index as int]),
            index >= NUM_LEDS ==> pixel.is_none(),
    {
        if index < NUM_LEDS {
            Some(&self.pixels[index])
        } else {
            None
        }
    }

    pub fn set_setting(&mut self, setting: StripSetting)
        ensures
            final(self)@ == (StripView { setting, ..old(self)@ }),
    {
        self.setting = setting;
    }

    pub fn get_setting(&self) -> (setting: StripSetting)
        ensures
            setting == self@.setting,
    {
        self.setting
    }

    /// Sets the brightness, given as the bit pattern of a binary32 number.
    pub fn set_brightness(&mut self, brightness: u32)
        ensures
            final(self)@ == (StripView { brightness, ..old(self)@ }),
    {
        self.brightness = brightness;
    }

    /// The brightness, as the bit pattern of a binary32 number.
    pub fn get_brightness(&self) -> (brightness: u32)
        ensures
            brightness == self@.brightness,
    {
        self.brightness
    }

    /// Sets the phase step, given as the bit pattern of a binary32 number.
    pub fn set_phase_step(&mut self, phase_step: u32)
        ensures
            final(self)@ == (StripView { phase_step, ..old(self)@ }),
    {
        self.phase_step = phase_step;
    }

    /// The phase step, as the bit pattern of a binary32 number.
    pub fn get_phase_step(&self) -> (phase_step: u32)
        ensures
            phase_step == self@.phase_step,
    {
        self.phase_step
    }

    /// The phase, as the bit pattern of a binary32 number.
    pub fn get_phase(&self) -> (phase: u32)
        ensures
            phase == self@.phase,
    {
        self.phase
    }

    pub fn get_frames_per_second(&self) -> (fps: u8)
        ensures
            fps == self@.frames_per_second,
    {
        self.frames_per_second
    }

    /// Whether a tick paints anything but darkness.
    pub fn is_on(&self) -> (on: bool)
        ensures
            on == self@.is_on,
    {
        self.is_on
    }

    /// How many pixels, from the first, are sent to the strip.
    pub fn get_num_leds_to_update(&self) -> (count: usize)
        ensures
            count == self@.active_leds,
    {
        self.num_leds_to_update
    }
}

impl LEDStrip {
    /// Carries out a command. A command whose action is unknown, whose mode
    /// is unknown or whose payload is too short changes nothing.
    pub fn apply_command(&mut self, command: &SerialCommand)
        ensures
            final(self)@ == applied(old(self)@, command@),
            old(self)@.well_formed() ==> final(self)@.well_formed(),
    {
        if !command.validate_length_with_action() {
            return ;
        }
        let n = command.payload_len();
        let ghost p = command@.payload;
        if command.action == 0x01 {
            self.is_on = command.data[0] != 0;
        } else if command.action == 0x02 {
            let brightness = read_be32(
                command.data[0],
                command.data[1],
                command.data[2],
                command.data[3],
            );
            self.set_brightness(brightness);
        } else if command.action == 0x03 {
            let mode = command.data[0];
            let setting = if mode == 0x00 {
                StripSetting::Custom
            } else if mode == 0x01 {
                StripSetting::Breathing {
                    r: command.data[1],
                    g: command.data[2],
                    b: command.data[3],
                }
            } else if mode == 0x02 {
                StripSetting::SolidColor {
                    r: command.data[1],
                    g: command.data[2],
                    b: command.data[3],
                }
            } else {
                StripSetting::RainbowCycle {
                    cycles: read_be32(
                        command.data[1],
                        command.data[2],
                        command.data[3],
                        command.data[4],
                    ),
                }
            };
            self.set_setting(setting);
        } else if command.action == 0x04 {
            let start = read_be16(command.data[0], command.data[1]) as usize;
            let count = (n - 2) / 3;
            let ghost colors = p.skip(2);
            self.set_setting(StripSetting::Custom);
            let ghost base = self@;
            let mut i: usize = 0;
            while i < count && start + i < NUM_LEDS
                invariant
                    i <= count,
                    count == colors.len() / 3,
                    n == p.len(),
                    n <= MAX_PAYLOAD,
                    colors == p.skip(2),
                    count == (n - 2) / 3,
                    n >= 5,
                    start <= u16::MAX,
                    forall|k: int| 0 <= k < n ==> p[k] == command.data[k],
                    base.pixels.len() == NUM_LEDS,
                    self@ == (StripView { pixels: self@.pixels, ..base }),
                    self@.pixels.len() == NUM_LEDS,
                    forall|j: int|
                        0 <= j < NUM_LEDS ==> self@.pixels[j] == if start <= j < start + i {
                            with_run(base.pixels, start as int, colors)[j]
                        } else {
                            base.pixels[j]
                        },
                decreases count - i,
            {
                let at = 2 + i * 3;
                self.set_pixel(
                    start + i,
                    RGBPixel::new(command.data[at], command.data[at + 1], command.data[at + 2]),
                );
                i = i + 1;
            }
            proof {
                assert(self@.pixels =~= with_run(base.pixels, start as int, colors));
            }
        } else if command.action == 0x05 {
            let phase_step = read_be32(
                command.data[0],
                command.data[1],
                command.data[2],
                command.data[3],
            );
            self.set_phase_step(phase_step);
        } else if command.action == 0x06 {
            let count = read_be16(command.data[0], command.data[1]) as usize;
            self.num_leds_to_update = if count <= NUM_LEDS {
                count
            } else {
                NUM_LEDS
            };
        } else {
            self.frames_per_second = command.data[0];
        }
    }
}

impl LEDStrip {
    /// Sets every pixel to `color` and says whether any pixel changed.
    fn paint_all(&mut self, color: RGBPixel) -> (changed: bool)
        ensures
            final(self)@ == (StripView {
                pixels: Seq::new(NUM_LEDS as nat, |i: int| color),
                ..old(self)@
            }),
            changed == (final(self)@.pixels != old(self)@.pixels),
    {
        let mut changed = false;
        let mut i: usize = 0;
        while i < NUM_LEDS
            invariant
                i <= NUM_LEDS,
                self@ == (StripView { pixels: self@.pixels, ..old(self)@ }),
                self@.pixels.len() == NUM_LEDS,
                old(self)@.pixels.len() == NUM_LEDS,
                forall|j: int| 0 <= j < i ==> self@.pixels[j] == color,
                forall|j: int| i <= j < NUM_LEDS ==> self@.pixels[j] == old(self)@.pixels[j],
                changed == exists|j: int| 0 <= j < i && old(self)@.pixels[j] != color,
            decreases NUM_LEDS - i,
        {
            let pixel = self.pixels[i];
            if pixel.r != color.r || pixel.g != color.g || pixel.b != color.b {
                changed = true;
                self.pixels[i] = color;
            }
            i = i + 1;
        }
        proof {
            assert(self@.pixels =~= Seq::new(NUM_LEDS as nat, |i: int| color));
            if !changed {
                assert(self@.pixels =~= old(self)@.pixels);
            }
        }
        changed
    }

    /// Darkens every pixel and says whether any pixel changed.
    pub fn clear(&mut self) -> (changed: bool)
        ensures
            final(self)@ == (StripView {
                pixels: Seq::new(NUM_LEDS as nat, |i: int| RGBPixel::dark()),
                ..old(self)@
            }),
            changed == (final(self)@.pixels != old(self)@.pixels),
    {
        self.paint_all(RGBPixel::off())
    }

    /// Paints one frame and says whether it has to be sent: whether any
    /// pixel changed, or, in `Custom` mode on a strip that is on, always.
    ///
    /// A strip that is off, or in `Off` mode, goes dark and keeps its
    /// phase. Otherwise the mode paints every pixel and the phase becomes
    /// `shading.next_phase`.
    pub fn update_pixels(&mut self, shading: &Shading) -> (changed: bool)
        ensures
            final(self)@ == ticked(old(self)@, *shading),
            changed == if old(self)@.is_on && old(self)@.setting is Custom {
                true
            } else {
                final(self)@.pixels != old(self)@.pixels
            },
            old(self)@.well_formed() ==> final(self)@.well_formed(),
    {
        if !self.is_on {
            let changed = self.clear();
            proof {
                assert(self@.pixels =~= ticked(old(self)@, *shading).pixels);
            }
            return changed;
        }
        let mut changed = false;
        match self.setting {
            StripSetting::Off => {
                changed = self.clear();
                proof {
                    assert(self@.pixels =~= ticked(old(self)@, *shading).pixels);
                }
                return changed;
            },
            StripSetting::Custom => {
                changed = true;
                proof {
                    assert(self@.pixels =~= ticked(old(self)@, *shading).pixels);
                }
            },
            StripSetting::Breathing { r, g, b } => {
                let color = RGBPixel::new(
                    shading.levels[r as usize],
                    shading.levels[g as usize],
                    shading.levels[b as usize],
                );
                changed = self.paint_all(color);
                proof {
                    assert(self@.pixels =~= ticked(old(self)@, *shading).pixels);
                }
            },
            StripSetting::SolidColor { r, g, b } => {
                let color = RGBPixel::new(
                    shading.levels[r as usize],
                    shading.levels[g as usize],
                    shading.levels[b as usize],
                );
                changed = self.paint_all(color);
                proof {
                    assert(self@.pixels =~= ticked(old(self)@, *shading).pixels);
                }
            },
            StripSetting::RainbowCycle { cycles } => {
                let mut i: usize = 0;
                while i < NUM_LEDS
                    invariant
                        i <= NUM_LEDS,
                        self@ == (StripView { pixels: self@.pixels, ..old(self)@ }),
                        self@.pixels.len() == NUM_LEDS,
                        old(self)@.pixels.len() == NUM_LEDS,
                        old(self)@.is_on,
                        old(self)@.setting == (StripSetting::RainbowCycle { cycles }),
                        forall|j: int|
                            0 <= j < i ==> self@.pixels[j] == painted_pixel(
                                old(self)@,
                                *shading,
                                j,
                            ),
                        forall|j: int|
                            i <= j < NUM_LEDS ==> self@.pixels[j] == old(self)@.pixels[j],
                        changed == exists|j: int|
                            0 <= j < i && old(self)@.pixels[j] != painted_pixel(
                                old(self)@,
                                *shading,
                                j,
                            ),
                    decreases NUM_LEDS - i,
                {
                    let rgb = hsv_to_rgb(shading.hues[i], 255, 255);
                    let color = RGBPixel::new(
                        shading.levels[rgb.r as usize],
                        shading.levels[rgb.g as usize],
                        shading.levels[rgb.b as usize],
                    );
                    let pixel = self.pixels[i];
                    if pixel.r != color.r || pixel.g != color.g || pixel.b != color.b {
                        changed = true;
                        self.pixels[i] = color;
                    }
                    i = i + 1;
                }
                proof {
                    let target = ticked(old(self)@, *shading).pixels;
                    assert(self@.pixels =~= target);
                    if !changed {
                        assert(self@.pixels =~= old(self)@.pixels);
                    }
                }
            },
        }
        self.phase = shading.next_phase;
        changed
    }

    /// Encodes the pixels into the pulse buffer, terminator last.
    pub fn fill_pulse_data(&mut self)
        ensures
            final(self)@ == (StripView {
                pulses: strip_pulses(old(self)@.pixels),
                ..old(self)@
            }),
    {
        let mut i: usize = 0;
        while i < NUM_LEDS
            invariant
                i <= NUM_LEDS,
                self@ == (StripView { pulses: self@.pulses, ..old(self)@ }),
                self@.pulses.len() == PULSE_LEN,
                self@.pixels.len() == NUM_LEDS,
                forall|j: int|
                    0 <= j < 24 * i ==> self@.pulses[j] == pixel_pulses(self@.pixels[j / 24])[j
                        % 24],
            decreases NUM_LEDS - i,
        {
            let pixel = self.pixels[i];
            rgb_to_pulses_at(&pixel, &mut self.pulse_data, i * 24);
            i = i + 1;
        }
        self.pulse_data[NUM_LEDS * 24] = Pulse::end_marker();
        proof {
            assert(self@.pulses =~= strip_pulses(old(self)@.pixels));
        }
    }

    /// Copies the pulses of the first `num` pixels (of all of them where
    /// `num` is not below the strip's length) into `buffer`, puts the
    /// terminator behind them, and returns that part of `buffer`.
    fn get_pulse_data_limited<'a>(&self, num: usize, buffer: &'a mut [Pulse]) -> (sent: &'a [
        Pulse
    ])
        requires
            old(buffer).len() > 24 * sent_pixels(num as int),
        ensures
            sent@ == transmission(self@.pulses, num as int),
            sent@.len() == 24 * sent_pixels(num as int) + 1,
            final(buffer)@ == sent@ + old(buffer)@.skip(sent@.len() as int),
    {
        let len = if num <= NUM_LEDS {
            num
        } else {
            NUM_LEDS
        };
        let data_len = len * 24;
        let mut j: usize = 0;
        while j < data_len
            invariant
                j <= data_len,
                data_len == len * 24,
                len <= NUM_LEDS,
                self@.pulses.len() == PULSE_LEN,
                buffer.len() == old(buffer).len(),
                buffer.len() >= data_len + 1,
                forall|k: int| 0 <= k < j ==> buffer[k] == self@.pulses[k],
                forall|k: int| j <= k < buffer.len() ==> buffer[k] == old(buffer)[k],
            decreases data_len - j,
        {
            buffer[j] = self.pulse_data[j];
            j = j + 1;
        }
        buffer[data_len] = Pulse::end_marker();
        let sent = vstd::slice::slice_subrange(buffer, 0, data_len + 1);
        sent
    }

    /// Number of pulses that are sent: those of the active pixels and the
    /// terminator.
    pub fn pulses_to_send(&self) -> (count: usize)
        ensures
            count == 24 * sent_pixels(self@.active_leds) + 1,
            count <= PULSE_LEN,
    {
        if self.num_leds_to_update < NUM_LEDS {
            self.num_leds_to_update * 24 + 1
        } else {
            PULSE_LEN
        }
    }

    /// Copies what is to be sent into `buffer` and returns that part of it:
    /// the pulses of the active pixels, then the terminator. `buffer` must
    /// have room for [`LEDStrip::pulses_to_send`] pulses.
    pub fn get_pulse_data<'a>(&self, buffer: &'a mut [Pulse]) -> (sent: &'a [Pulse])
        requires
            old(buffer).len() > 24 * sent_pixels(self@.active_leds),
        ensures
            sent@ == transmission(self@.pulses, self@.active_leds),
            sent@.len() == 24 * sent_pixels(self@.active_leds) + 1,
            sent@.last() == Pulse::terminator(),
            final(buffer)@ == sent@ + old(buffer)@.skip(sent@.len() as int),
    {
        self.get_pulse_data_limited(self.num_leds_to_update, buffer)
    }
}

} // verus!
