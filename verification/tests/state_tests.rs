use fun60_analog_plugin::ffi::{generate_device_id, WootingAnalogResult, FUN60_PID, FUN60_VID};
use fun60_analog_plugin::state::{
    device_info_count, device_matches, full_buffer_count, full_travel_from, fun60_device_id,
    fun60_keymap, initialise_result, matrix_index_for_code, parse_u16, pressed_codes, request_error,
    table_of_pairs,
    SERIAL_PLACEHOLDER,
};
use std::collections::HashMap;

#[test]
fn keymap_maps_a_to_hid_a() {
    let keymap = fun60_keymap();
    assert_eq!(keymap.get(&9), Some(&0x04));
    assert_eq!(keymap.len(), 60);
    assert_eq!(keymap.get(&71), None);
}

#[test]
fn later_pairs_win_in_table() {
    let m = table_of_pairs(&vec![(1, 10), (2, 20), (1, 30)]);
    assert_eq!(m.len(), 2);
    assert_eq!(m[&1], 30);
    assert_eq!(m[&2], 20);
}

#[test]
fn reverse_lookup_finds_matrix_index() {
    let keymap = fun60_keymap();
    assert_eq!(matrix_index_for_code(&keymap, 0x04), Some(9));
    assert_eq!(matrix_index_for_code(&keymap, 0xE4), Some(83));
    assert_eq!(matrix_index_for_code(&keymap, 0x3A), None); // F1 is not on the layout
    let mut dup: HashMap<u8, u16> = HashMap::new();
    dup.insert(200, 7);
    dup.insert(100, 7);
    assert_eq!(matrix_index_for_code(&dup, 7), Some(100));
}

#[test]
fn pressed_codes_skip_unmapped() {
    let keymap = fun60_keymap();
    let out = pressed_codes(&vec![(9, 175), (71, 300), (83, 350)], &keymap);
    assert_eq!(out, vec![(0x04, 175), (0xE4, 350)]);
}

#[test]
fn full_travel_override() {
    assert_eq!(full_travel_from(None), 350);
    assert_eq!(full_travel_from(Some("400")), 400);
    assert_eq!(full_travel_from(Some("+12")), 12);
    assert_eq!(full_travel_from(Some("0")), 350);
    assert_eq!(full_travel_from(Some("-5")), 350);
    assert_eq!(full_travel_from(Some(" 400")), 350);
    assert_eq!(full_travel_from(Some("70000")), 350);
    assert_eq!(full_travel_from(Some("")), 350);
    assert_eq!(full_travel_from(Some("65535")), 65535);
}

#[test]
fn plugin_device_id_uses_placeholder_serial() {
    assert_eq!(
        fun60_device_id(),
        generate_device_id(SERIAL_PLACEHOLDER, FUN60_VID, FUN60_PID)
    );
    assert_eq!(SERIAL_PLACEHOLDER, "fun60-ultra");
}

#[test]
fn entry_point_answers() {
    assert!(device_matches(0, 42));
    assert!(device_matches(42, 42));
    assert!(!device_matches(41, 42));
    assert_eq!(initialise_result(true), 1);
    assert_eq!(initialise_result(false), 0);
    assert_eq!(device_info_count(0), 0);
    assert_eq!(device_info_count(-3), 0);
    assert_eq!(device_info_count(5), 1);
    assert_eq!(full_buffer_count(3, -1), Err(WootingAnalogResult::InvalidArgument));
    assert_eq!(full_buffer_count(3, 10), Ok(3));
    assert_eq!(full_buffer_count(30, 10), Ok(10));
    assert_eq!(full_buffer_count(0, 0), Ok(0));
}

#[test]
fn parse_u16_follows_std() {
    for s in ["0", "7", "+7", "007", "65535", "+0", "350"] {
        assert_eq!(parse_u16(s), s.parse::<u16>().ok(), "input {s:?}");
    }
    for s in ["", "+", "-", "-1", "-0", " 1", "1 ", "1_000", "65536", "99999999999", "12a", "\u{ff11}", "++1"] {
        assert_eq!(parse_u16(s), None, "input {s:?}");
        assert_eq!(s.parse::<u16>().ok(), None, "input {s:?}");
    }
    assert_eq!(parse_u16("007"), Some(7));
    assert_eq!(parse_u16("+65535"), Some(65535));
}

#[test]
fn request_checks_in_order() {
    assert_eq!(request_error(false, false, false), Some(WootingAnalogResult::UnInitialized));
    assert_eq!(request_error(true, false, false), Some(WootingAnalogResult::NoDevices));
    assert_eq!(request_error(true, true, false), Some(WootingAnalogResult::DeviceDisconnected));
    assert_eq!(request_error(true, true, true), None);
}
