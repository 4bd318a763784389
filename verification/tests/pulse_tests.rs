use rgb_led::pulse::{byte_to_pulses, rgb_to_pulses_at, WS2812_T0H, WS2812_T0L, WS2812_T1H,
    WS2812_T1L};
use rgb_led::{rgb_to_pulses, Pulse, RGBPixel};

fn zero_pulse() -> Pulse {
    Pulse::new(true, 32, false, 68)
}

fn one_pulse() -> Pulse {
    Pulse::new(true, 64, false, 48)
}

fn filler() -> Pulse {
    Pulse::new(false, 7, true, 9)
}

#[test]
fn timing_constants() {
    assert_eq!(WS2812_T0H, 32);
    assert_eq!(WS2812_T0L, 68);
    assert_eq!(WS2812_T1H, 64);
    assert_eq!(WS2812_T1L, 48);
}

#[test]
fn pulse_keeps_its_parts() {
    let pulse = Pulse::new(true, 64, false, 48);
    assert!(pulse.level1);
    assert_eq!(pulse.length1, 64);
    assert!(!pulse.level2);
    assert_eq!(pulse.length2, 48);
    assert!(!pulse.is_end_marker());
}

#[test]
fn end_marker_is_all_zero_and_low() {
    let end = Pulse::end_marker();
    assert_eq!(end, Pulse::new(false, 0, false, 0));
    assert_eq!(end, Pulse::default());
    assert!(end.is_end_marker());
}

#[test]
fn a_zero_length_ends_a_transmission() {
    assert!(Pulse::new(true, 0, false, 5).is_end_marker());
    assert!(Pulse::new(true, 5, false, 0).is_end_marker());
    assert!(!Pulse::new(false, 1, false, 1).is_end_marker());
}

#[test]
fn dark_pixel_is_twenty_four_zero_pulses() {
    let mut pulses = [filler(); 24];
    rgb_to_pulses(&RGBPixel::new(0, 0, 0), &mut pulses);
    for pulse in pulses.iter() {
        assert_eq!(*pulse, zero_pulse());
        assert!(pulse.level1 && !pulse.level2);
        assert_eq!((pulse.length1, pulse.length2), (32, 68));
    }
}

#[test]
fn white_pixel_is_twenty_four_one_pulses() {
    let mut pulses = [filler(); 24];
    rgb_to_pulses(&RGBPixel::new(255, 255, 255), &mut pulses);
    assert!(pulses.iter().all(|pulse| *pulse == one_pulse()));
}

#[test]
fn pixel_is_sent_green_red_blue() {
    let mut pulses = [filler(); 24];
    rgb_to_pulses(&RGBPixel::new(0, 255, 0), &mut pulses);
    assert!(pulses[0..8].iter().all(|pulse| *pulse == one_pulse()));
    assert!(pulses[8..24].iter().all(|pulse| *pulse == zero_pulse()));
    rgb_to_pulses(&RGBPixel::new(255, 0, 0), &mut pulses);
    assert!(pulses[0..8].iter().all(|pulse| *pulse == zero_pulse()));
    assert!(pulses[8..16].iter().all(|pulse| *pulse == one_pulse()));
    assert!(pulses[16..24].iter().all(|pulse| *pulse == zero_pulse()));
    rgb_to_pulses(&RGBPixel::new(0, 0, 255), &mut pulses);
    assert!(pulses[0..16].iter().all(|pulse| *pulse == zero_pulse()));
    assert!(pulses[16..24].iter().all(|pulse| *pulse == one_pulse()));
}

#[test]
fn bytes_are_sent_most_significant_bit_first() {
    let mut pulses = [filler(); 8];
    byte_to_pulses(0x80, &mut pulses, 0);
    assert_eq!(pulses[0], one_pulse());
    assert!(pulses[1..8].iter().all(|pulse| *pulse == zero_pulse()));
    byte_to_pulses(0x01, &mut pulses, 0);
    assert!(pulses[0..7].iter().all(|pulse| *pulse == zero_pulse()));
    assert_eq!(pulses[7], one_pulse());
    byte_to_pulses(0b1010_0110, &mut pulses, 0);
    let expected = [true, false, true, false, false, true, true, false];
    for k in 0..8 {
        assert_eq!(pulses[k] == one_pulse(), expected[k]);
        assert_eq!(pulses[k] == zero_pulse(), !expected[k]);
    }
}

#[test]
fn mixed_pixel_pulse_by_pulse() {
    let mut pulses = [filler(); 24];
    rgb_to_pulses(&RGBPixel::new(0x01, 0x80, 0xF0), &mut pulses);
    let bits: u32 = 0x80_01_F0;
    for k in 0..24 {
        let set = (bits >> (23 - k)) & 1 == 1;
        assert_eq!(pulses[k], if set { one_pulse() } else { zero_pulse() });
    }
}

#[test]
fn encoding_leaves_the_rest_of_the_buffer_alone() {
    let mut pulses = [filler(); 40];
    rgb_to_pulses(&RGBPixel::new(1, 2, 3), &mut pulses);
    assert!(pulses[24..].iter().all(|pulse| *pulse == filler()));
    let mut pulses = [filler(); 60];
    rgb_to_pulses_at(&RGBPixel::new(255, 255, 255), &mut pulses, 30);
    assert!(pulses[..30].iter().all(|pulse| *pulse == filler()));
    assert!(pulses[30..54].iter().all(|pulse| *pulse == one_pulse()));
    assert!(pulses[54..].iter().all(|pulse| *pulse == filler()));
    byte_to_pulses(0x00, &mut pulses, 52);
    assert!(pulses[30..52].iter().all(|pulse| *pulse == one_pulse()));
    assert!(pulses[52..60].iter().all(|pulse| *pulse == zero_pulse()));
}
