use fun60_analog_plugin::hid::Key;
use fun60_analog_plugin::keymap::hid_code_for;
use std::collections::HashSet;

#[test]
fn spot_check_usage_codes() {
    assert_eq!(Key::A.code(), 0x04);
    assert_eq!(Key::D.code(), 0x07);
    assert_eq!(Key::S.code(), 0x16);
    assert_eq!(Key::W.code(), 0x1A);
    assert_eq!(Key::Space.code(), 0x2C);
    assert_eq!(Key::LCtrl.code(), 0xE0);
    assert_eq!(Key::RCtrl.code(), 0xE4);
    assert_eq!(Key::Num1.code(), 0x1E);
    assert_eq!(Key::Num0.code(), 0x27);
    assert_eq!(Key::Escape.code(), 0x29);
}

#[test]
fn codes_are_unique() {
    let all = [
            Key::A,
            Key::B,
            Key::C,
            Key::D,
            Key::E,
            Key::F,
            Key::G,
            Key::H,
            Key::I,
            Key::J,
            Key::K,
            Key::L,
            Key::M,
            Key::N,
            Key::O,
            Key::P,
            Key::Q,
            Key::R,
            Key::S,
            Key::T,
            Key::U,
            Key::V,
            Key::W,
            Key::X,
            Key::Y,
            Key::Z,
            Key::Num1,
            Key::Num2,
            Key::Num3,
            Key::Num4,
            Key::Num5,
            Key::Num6,
            Key::Num7,
            Key::Num8,
            Key::Num9,
            Key::Num0,
            Key::Enter,
            Key::Escape,
            Key::Backspace,
            Key::Tab,
            Key::Space,
            Key::CapsLock,
            Key::Minus,
            Key::Equal,
            Key::LeftBracket,
            Key::RightBracket,
            Key::Backslash,
            Key::NonUsHash,
            Key::Semicolon,
            Key::Apostrophe,
            Key::Grave,
            Key::Comma,
            Key::Dot,
            Key::Slash,
            Key::LCtrl,
            Key::LShift,
            Key::LAlt,
            Key::LMeta,
            Key::RCtrl,
            Key::RShift,
            Key::RAlt,
            Key::RMeta,
            Key::Application,
            Key::F1,
            Key::F12,
            Key::Left,
            Key::Right,
            Key::Up,
            Key::Down,
        
    ];
    let set: HashSet<u16> = all.iter().map(|&k| k.code()).collect();
    assert_eq!(set.len(), all.len(), "usage codes must be unique");
}

#[test]
fn db_names_round_trip_through_codes() {
    // Every Key that has a db_name must produce the same code the name
    // maps to in the legacy name table - single source of truth check.
    for key in [
            Key::Escape,
            Key::Tab,
            Key::CapsLock,
            Key::LShift,
            Key::LCtrl,
            Key::Num1,
            Key::Q,
            Key::A,
            Key::W,
            Key::S,
            Key::Z,
            Key::LMeta,
            Key::Num3,
            Key::E,
            Key::D,
            Key::X,
            Key::LAlt,
            Key::Num4,
            Key::R,
            Key::F,
            Key::C,
            Key::Num5,
            Key::T,
            Key::G,
            Key::V,
            Key::Num6,
            Key::Y,
            Key::H,
            Key::B,
            Key::Space,
            Key::Num7,
            Key::U,
            Key::J,
            Key::N,
            Key::Num8,
            Key::I,
            Key::K,
            Key::M,
            Key::Num9,
            Key::O,
            Key::L,
            Key::Comma,
            Key::Num0,
            Key::P,
            Key::Semicolon,
            Key::Dot,
            Key::RAlt,
            Key::Minus,
            Key::LeftBracket,
            Key::Apostrophe,
            Key::Slash,
            Key::Equal,
            Key::RightBracket,
            Key::RShift,
            Key::Application,
            Key::Backspace,
            Key::Backslash,
            Key::Enter,
            Key::RCtrl,
        ] {
        let name = key.db_name().expect("test list contains only mapped keys");
        assert_eq!(
            hid_code_for(name),
            Some(key.code()),
            "name/code mismatch for {name}"
        );
    }
}

#[test]
fn db_key_of_inverts_db_name() {
    assert_eq!(Key::db_key_of("Esc"), Some(Key::Escape));
    assert_eq!(Key::db_key_of("\\"), Some(Key::Backslash));
    assert_eq!(Key::db_key_of("Application"), Some(Key::Application));
    assert_eq!(Key::db_key_of("RCtrl"), Some(Key::RCtrl));
    assert_eq!(Key::Escape.db_name(), Some("Esc"));
    assert_eq!(Key::F1.db_name(), None);
    assert_eq!(Key::db_key_of("Fn"), None);
    assert_eq!(Key::db_key_of("esc"), None);
    assert_eq!(Key::db_key_of(""), None);
}

#[test]
fn grave_is_not_a_db_name() {
    assert_eq!(Key::db_key_of("`"), None);
    assert_eq!(Key::Grave.db_name(), None);
    assert_eq!(hid_code_for("`"), Some(0x35));
    assert_eq!(hid_code_for("RMeta"), Some(0xE7));
    assert_eq!(hid_code_for("Fn"), None);
}
