use rgb_led::command::{read_be16, read_be32, FRAME_OVERHEAD, FRAME_PREFIX, HEADER, MAX_PAYLOAD};
use rgb_led::SerialCommand;

fn command_of(action: u8, length: u16, first: u8) -> SerialCommand {
    let mut command = SerialCommand::new();
    command.action = action;
    command.length = length;
    command.data[0] = first;
    command
}

#[test]
fn new_command_is_empty() {
    let command = SerialCommand::new();
    assert_eq!(command.action, 0);
    assert_eq!(command.length, 0);
    assert_eq!(command.checksum, 0);
    assert!(command.data.iter().all(|byte| *byte == 0));
    assert_eq!(command.payload_len(), 0);
}

#[test]
fn frame_constants() {
    assert_eq!(HEADER, 0xAA);
    assert_eq!(MAX_PAYLOAD, 1024);
    assert_eq!(FRAME_PREFIX, 4);
    assert_eq!(FRAME_OVERHEAD, 6);
}

#[test]
fn payload_len_follows_length_up_to_the_buffer() {
    assert_eq!(command_of(1, 0, 0).payload_len(), 0);
    assert_eq!(command_of(1, 7, 0).payload_len(), 7);
    assert_eq!(command_of(1, 1024, 0).payload_len(), 1024);
    assert_eq!(command_of(1, 1025, 0).payload_len(), 1024);
    assert_eq!(command_of(1, 65535, 0).payload_len(), 1024);
}

#[test]
fn big_endian_values() {
    assert_eq!(read_be16(0x12, 0x34), 0x1234);
    assert_eq!(read_be16(0x00, 0xFF), 255);
    assert_eq!(read_be16(0xFF, 0xFF), 65535);
    assert_eq!(read_be32(0x3F, 0x80, 0x00, 0x00), 0x3F80_0000);
    assert_eq!(read_be32(0xFF, 0xFF, 0xFF, 0xFF), u32::MAX);
    assert_eq!(read_be32(0x01, 0x02, 0x03, 0x04), 0x0102_0304);
    assert_eq!(read_be32(0x3F, 0x00, 0x00, 0x00), 0.5f32.to_bits());
}

#[test]
fn on_off_needs_one_byte() {
    assert!(!command_of(0x01, 0, 0).validate_length_with_action());
    assert!(command_of(0x01, 1, 0).validate_length_with_action());
    assert!(command_of(0x01, 9, 0).validate_length_with_action());
}

#[test]
fn brightness_needs_four_bytes() {
    assert!(!command_of(0x02, 3, 0).validate_length_with_action());
    assert!(command_of(0x02, 4, 0).validate_length_with_action());
}

#[test]
fn mode_needs_its_identifier() {
    assert!(!command_of(0x03, 0, 0x00).validate_length_with_action());
    assert!(command_of(0x03, 1, 0x00).validate_length_with_action());
}

#[test]
fn breathing_and_solid_need_a_colour() {
    for mode in [0x01u8, 0x02] {
        assert!(!command_of(0x03, 1, mode).validate_length_with_action());
        assert!(!command_of(0x03, 3, mode).validate_length_with_action());
        assert!(command_of(0x03, 4, mode).validate_length_with_action());
    }
}

#[test]
fn rainbow_needs_its_cycles() {
    assert!(!command_of(0x03, 4, 0x03).validate_length_with_action());
    assert!(command_of(0x03, 5, 0x03).validate_length_with_action());
}

#[test]
fn unknown_mode_is_refused() {
    assert!(!command_of(0x03, 5, 0x04).validate_length_with_action());
    assert!(!command_of(0x03, 1024, 0xFF).validate_length_with_action());
}

#[test]
fn pixel_run_needs_an_index_and_one_pixel() {
    assert!(!command_of(0x04, 4, 0).validate_length_with_action());
    assert!(command_of(0x04, 5, 0).validate_length_with_action());
    assert!(command_of(0x04, 1024, 0).validate_length_with_action());
}

#[test]
fn phase_step_needs_four_bytes() {
    assert!(!command_of(0x05, 3, 0).validate_length_with_action());
    assert!(command_of(0x05, 4, 0).validate_length_with_action());
}

#[test]
fn active_count_needs_two_bytes() {
    assert!(!command_of(0x06, 1, 0).validate_length_with_action());
    assert!(command_of(0x06, 2, 0).validate_length_with_action());
}

#[test]
fn frames_per_second_needs_one_byte() {
    assert!(!command_of(0x07, 0, 0).validate_length_with_action());
    assert!(command_of(0x07, 1, 0).validate_length_with_action());
}

#[test]
fn unknown_action_is_refused() {
    assert!(!command_of(0x00, 100, 0).validate_length_with_action());
    assert!(!command_of(0x08, 100, 0).validate_length_with_action());
    assert!(!command_of(0xAA, 100, 0).validate_length_with_action());
    assert!(!command_of(0xFF, 1024, 0).validate_length_with_action());
}
