use fun60_analog_plugin::hid::Key;
use fun60_analog_plugin::keymap::{
    build_matrix_to_hid, build_matrix_to_key, fun60_matrix_names, CUSTOM_KEY_BASE,
    DEFAULT_FULL_TRAVEL,
};
use std::collections::HashMap;
use std::collections::HashSet;

#[test]
fn all_60_keys_present() {
    let names = fun60_matrix_names();
    assert_eq!(names.len(), 60);
    let idxs: HashSet<u8> = names.iter().map(|&(i, _)| i).collect();
    assert_eq!(idxs.len(), 60, "matrix indices must be unique");
}

#[test]
fn letters_map_to_expected_codes() {
    let table: HashMap<u8, u16> = build_matrix_to_hid().into_iter().collect();
    assert_eq!(table[&9], 0x04); // A
    assert_eq!(table[&8], 0x14); // Q
    assert_eq!(table[&41], 0x2C); // Space
    assert_eq!(table[&83], 0xE4); // RCtrl
}

#[test]
fn digits_map_correctly() {
    let table: HashMap<u8, u16> = build_matrix_to_hid().into_iter().collect();
    assert_eq!(table[&7], 0x1E); // 1
    assert_eq!(table[&61], 0x27); // 0
}

#[test]
fn all_mapped_codes_are_valid_hid() {
    for (_, code) in build_matrix_to_hid() {
        assert!(
            (0x04..=0x65).contains(&code) || (0xE0..=0xE7).contains(&code),
            "code {code:#04x} outside HID keyboard range"
        );
    }
}

#[test]
fn key_table_follows_name_table() {
    let names = fun60_matrix_names();
    let keys = build_matrix_to_key();
    assert_eq!(keys.len(), names.len());
    for ((idx, name), (kidx, key)) in names.iter().zip(keys.iter()) {
        assert_eq!(idx, kidx);
        assert_eq!(key.db_name(), Some(*name));
    }
    assert_eq!(keys[0], (1, Key::Escape));
    assert_eq!(keys[59], (83, Key::RCtrl));
    let hid = build_matrix_to_hid();
    assert_eq!(hid.len(), 60);
    assert!(hid.iter().all(|&(_, c)| c < CUSTOM_KEY_BASE));
    assert_eq!(DEFAULT_FULL_TRAVEL, 350);
}
