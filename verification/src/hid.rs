//! USB HID Keyboard/Keypad usage codes (HID Usage Tables page 0x07).
//!
//! These are the codes the Wooting Analog SDK uses in its default HID keycode
//! mode, and the vocabulary for the plugin's keymap. Only keys present on the
//! FUN60 Ultra layout (plus a few extras likely to be useful for bindings)
//! are named here.

use vstd::prelude::*;

verus! {

/// A named HID keyboard usage code.
#[derive(Debug, Clone, Copy, PartialEq, Eq, Hash, Structural)]
#[non_exhaustive]
pub enum Key {

    // Letters
    A,
    B,
    C,
    D,
    E,
    F,
    G,
    H,
    I,
    J,
    K,
    L,
    M,
    N,
    O,
    P,
    Q,
    R,
    S,
    T,
    U,
    V,
    W,
    X,
    Y,
    Z,

    // Digits
    Num1,
    Num2,
    Num3,
    Num4,
    Num5,
    Num6,
    Num7,
    Num8,
    Num9,
    Num0,

    // Whitespace / control
    Enter,
    Escape,
    Backspace,
    Tab,
    Space,
    CapsLock,

    // Punctuation
    Minus,
    Equal,
    LeftBracket,
    RightBracket,
    Backslash,
    NonUsHash,
    Semicolon,
    Apostrophe,
    Grave,
    Comma,
    Dot,
    Slash,

    // Modifiers
    LCtrl,
    LShift,
    LAlt,
    LMeta,
    RCtrl,
    RShift,
    RAlt,
    RMeta,

    // Navigation / misc
    Application,
    F1,
    F2,
    F3,
    F4,
    F5,
    F6,
    F7,
    F8,
    F9,
    F10,
    F11,
    F12,

    // Arrows
    Left,
    Right,
    Up,
    Down,
}

/// HID usage code of each key.
pub open spec fn spec_code(k: Key) -> u16 {
    match k {
        Key::A => 0x04,
        Key::B => 0x05,
        Key::C => 0x06,
        Key::D => 0x07,
        Key::E => 0x08,
        Key::F => 0x09,
        Key::G => 0x0A,
        Key::H => 0x0B,
        Key::I => 0x0C,
        Key::J => 0x0D,
        Key::K => 0x0E,
        Key::L => 0x0F,
        Key::M => 0x10,
        Key::N => 0x11,
        Key::O => 0x12,
        Key::P => 0x13,
        Key::Q => 0x14,
        Key::R => 0x15,
        Key::S => 0x16,
        Key::T => 0x17,
        Key::U => 0x18,
        Key::V => 0x19,
        Key::W => 0x1A,
        Key::X => 0x1B,
        Key::Y => 0x1C,
        Key::Z => 0x1D,
        Key::Num1 => 0x1E,
        Key::Num2 => 0x1F,
        Key::Num3 => 0x20,
        Key::Num4 => 0x21,
        Key::Num5 => 0x22,
        Key::Num6 => 0x23,
        Key::Num7 => 0x24,
        Key::Num8 => 0x25,
        Key::Num9 => 0x26,
        Key::Num0 => 0x27,
        Key::Enter => 0x28,
        Key::Escape => 0x29,
        Key::Backspace => 0x2A,
        Key::Tab => 0x2B,
        Key::Space => 0x2C,
        Key::CapsLock => 0x39,
        Key::Minus => 0x2D,
        Key::Equal => 0x2E,
        Key::LeftBracket => 0x2F,
        Key::RightBracket => 0x30,
        Key::Backslash => 0x31,
        Key::NonUsHash => 0x32,
        Key::Semicolon => 0x33,
        Key::Apostrophe => 0x34,
        Key::Grave => 0x35,
        Key::Comma => 0x36,
        Key::Dot => 0x37,
        Key::Slash => 0x38,
        Key::LCtrl => 0xE0,
        Key::LShift => 0xE1,
        Key::LAlt => 0xE2,
        Key::LMeta => 0xE3,
        Key::RCtrl => 0xE4,
        Key::RShift => 0xE5,
        Key::RAlt => 0xE6,
        Key::RMeta => 0xE7,
        Key::Application => 0x65,
        Key::F1 => 0x3A,
        Key::F2 => 0x3B,
        Key::F3 => 0x3C,
        Key::F4 => 0x3D,
        Key::F5 => 0x3E,
        Key::F6 => 0x3F,
        Key::F7 => 0x40,
        Key::F8 => 0x41,
        Key::F9 => 0x42,
        Key::F10 => 0x43,
        Key::F11 => 0x44,
        Key::F12 => 0x45,
        Key::Left => 0x50,
        Key::Right => 0x4F,
        Key::Up => 0x52,
        Key::Down => 0x51,
    }
}

/// The key with a given usage code, if any.
pub open spec fn key_of_code(c: u16) -> Option<Key> {
    if c == 0x04 {
        Some(Key::A)
    } else if c == 0x05 {
        Some(Key::B)
    } else if c == 0x06 {
        Some(Key::C)
    } else if c == 0x07 {
        Some(Key::D)
    } else if c == 0x08 {
        Some(Key::E)
    } else if c == 0x09 {
        Some(Key::F)
    } else if c == 0x0A {
        Some(Key::G)
    } else if c == 0x0B {
        Some(Key::H)
    } else if c == 0x0C {
        Some(Key::I)
    } else if c == 0x0D {
        Some(Key::J)
    } else if c == 0x0E {
        Some(Key::K)
    } else if c == 0x0F {
        Some(Key::L)
    } else if c == 0x10 {
        Some(Key::M)
    } else if c == 0x11 {
        Some(Key::N)
    } else if c == 0x12 {
        Some(Key::O)
    } else if c == 0x13 {
        Some(Key::P)
    } else if c == 0x14 {
        Some(Key::Q)
    } else if c == 0x15 {
        Some(Key::R)
    } else if c == 0x16 {
        Some(Key::S)
    } else if c == 0x17 {
        Some(Key::T)
    } else if c == 0x18 {
        Some(Key::U)
    } else if c == 0x19 {
        Some(Key::V)
    } else if c == 0x1A {
        Some(Key::W)
    } else if c == 0x1B {
        Some(Key::X)
    } else if c == 0x1C {
        Some(Key::Y)
    } else if c == 0x1D {
        Some(Key::Z)
    } else if c == 0x1E {
        Some(Key::Num1)
    } else if c == 0x1F {
        Some(Key::Num2)
    } else if c == 0x20 {
        Some(Key::Num3)
    } else if c == 0x21 {
        Some(Key::Num4)
    } else if c == 0x22 {
        Some(Key::Num5)
    } else if c == 0x23 {
        Some(Key::Num6)
    } else if c == 0x24 {
        Some(Key::Num7)
    } else if c == 0x25 {
        Some(Key::Num8)
    } else if c == 0x26 {
        Some(Key::Num9)
    } else if c == 0x27 {
        Some(Key::Num0)
    } else if c == 0x28 {
        Some(Key::Enter)
    } else if c == 0x29 {
        Some(Key::Escape)
    } else if c == 0x2A {
        Some(Key::Backspace)
    } else if c == 0x2B {
        Some(Key::Tab)
    } else if c == 0x2C {
        Some(Key::Space)
    } else if c == 0x39 {
        Some(Key::CapsLock)
    } else if c == 0x2D {
        Some(Key::Minus)
    } else if c == 0x2E {
        Some(Key::Equal)
    } else if c == 0x2F {
        Some(Key::LeftBracket)
    } else if c == 0x30 {
        Some(Key::RightBracket)
    } else if c == 0x31 {
        Some(Key::Backslash)
    } else if c == 0x32 {
        Some(Key::NonUsHash)
    } else if c == 0x33 {
        Some(Key::Semicolon)
    } else if c == 0x34 {
        Some(Key::Apostrophe)
    } else if c == 0x35 {
        Some(Key::Grave)
    } else if c == 0x36 {
        Some(Key::Comma)
    } else if c == 0x37 {
        Some(Key::Dot)
    } else if c == 0x38 {
        Some(Key::Slash)
    } else if c == 0xE0 {
        Some(Key::LCtrl)
    } else if c == 0xE1 {
        Some(Key::LShift)
    } else if c == 0xE2 {
        Some(Key::LAlt)
    } else if c == 0xE3 {
        Some(Key::LMeta)
    } else if c == 0xE4 {
        Some(Key::RCtrl)
    } else if c == 0xE5 {
        Some(Key::RShift)
    } else if c == 0xE6 {
        Some(Key::RAlt)
    } else if c == 0xE7 {
        Some(Key::RMeta)
    } else if c == 0x65 {
        Some(Key::Application)
    } else if c == 0x3A {
        Some(Key::F1)
    } else if c == 0x3B {
        Some(Key::F2)
    } else if c == 0x3C {
        Some(Key::F3)
    } else if c == 0x3D {
        Some(Key::F4)
    } else if c == 0x3E {
        Some(Key::F5)
    } else if c == 0x3F {
        Some(Key::F6)
    } else if c == 0x40 {
        Some(Key::F7)
    } else if c == 0x41 {
        Some(Key::F8)
    } else if c == 0x42 {
        Some(Key::F9)
    } else if c == 0x43 {
        Some(Key::F10)
    } else if c == 0x44 {
        Some(Key::F11)
    } else if c == 0x45 {
        Some(Key::F12)
    } else if c == 0x50 {
        Some(Key::Left)
    } else if c == 0x4F {
        Some(Key::Right)
    } else if c == 0x52 {
        Some(Key::Up)
    } else if c == 0x51 {
        Some(Key::Down)
    } else {
        None
    }
}

/// The DB name of each key on the FUN60 Ultra layout.
pub open spec fn spec_db_name(k: Key) -> Option<Seq<char>> {
    match k {
        Key::Escape => Some("Esc"@),
        Key::Tab => Some("Tab"@),
        Key::CapsLock => Some("CapsLock"@),
        Key::LShift => Some("LShift"@),
        Key::LCtrl => Some("LCtrl"@),
        Key::Num1 => Some("1"@),
        Key::Q => Some("Q"@),
        Key::A => Some("A"@),
        Key::Num2 => Some("2"@),
        Key::W => Some("W"@),
        Key::S => Some("S"@),
        Key::Z => Some("Z"@),
        Key::LMeta => Some("LMeta"@),
        Key::Num3 => Some("3"@),
        Key::E => Some("E"@),
        Key::D => Some("D"@),
        Key::X => Some("X"@),
        Key::LAlt => Some("LAlt"@),
        Key::Num4 => Some("4"@),
        Key::R => Some("R"@),
        Key::F => Some("F"@),
        Key::C => Some("C"@),
        Key::Num5 => Some("5"@),
        Key::T => Some("T"@),
        Key::G => Some("G"@),
        Key::V => Some("V"@),
        Key::Num6 => Some("6"@),
        Key::Y => Some("Y"@),
        Key::H => Some("H"@),
        Key::B => Some("B"@),
        Key::Space => Some("Space"@),
        Key::Num7 => Some("7"@),
        Key::U => Some("U"@),
        Key::J => Some("J"@),
        Key::N => Some("N"@),
        Key::Num8 => Some("8"@),
        Key::I => Some("I"@),
        Key::K => Some("K"@),
        Key::M => Some("M"@),
        Key::Num9 => Some("9"@),
        Key::O => Some("O"@),
        Key::L => Some("L"@),
        Key::Comma => Some(","@),
        Key::Num0 => Some("0"@),
        Key::P => Some("P"@),
        Key::Semicolon => Some(";"@),
        Key::Dot => Some("."@),
        Key::RAlt => Some("RAlt"@),
        Key::Minus => Some("-"@),
        Key::LeftBracket => Some("["@),
        Key::Apostrophe => Some("'"@),
        Key::Slash => Some("/"@),
        Key::Equal => Some("="@),
        Key::RightBracket => Some("]"@),
        Key::RShift => Some("RShift"@),
        Key::Application => Some("Application"@),
        Key::Backspace => Some("Backspace"@),
        Key::Backslash => Some("\\"@),
        Key::Enter => Some("Enter"@),
        Key::RCtrl => Some("RCtrl"@),
        _ => None,
    }
}

/// The key a DB name stands for, if any.
pub open spec fn spec_db_key_of(name: Seq<char>) -> Option<Key> {
    if name == "Esc"@ {
        Some(Key::Escape)
    } else if name == "Tab"@ {
        Some(Key::Tab)
    } else if name == "CapsLock"@ {
        Some(Key::CapsLock)
    } else if name == "LShift"@ {
        Some(Key::LShift)
    } else if name == "LCtrl"@ {
        Some(Key::LCtrl)
    } else if name == "1"@ {
        Some(Key::Num1)
    } else if name == "Q"@ {
        Some(Key::Q)
    } else if name == "A"@ {
        Some(Key::A)
    } else if name == "2"@ {
        Some(Key::Num2)
    } else if name == "W"@ {
        Some(Key::W)
    } else if name == "S"@ {
        Some(Key::S)
    } else if name == "Z"@ {
        Some(Key::Z)
    } else if name == "LMeta"@ {
        Some(Key::LMeta)
    } else if name == "3"@ {
        Some(Key::Num3)
    } else if name == "E"@ {
        Some(Key::E)
    } else if name == "D"@ {
        Some(Key::D)
    } else if name == "X"@ {
        Some(Key::X)
    } else if name == "LAlt"@ {
        Some(Key::LAlt)
    } else if name == "4"@ {
        Some(Key::Num4)
    } else if name == "R"@ {
        Some(Key::R)
    } else if name == "F"@ {
        Some(Key::F)
    } else if name == "C"@ {
        Some(Key::C)
    } else if name == "5"@ {
        Some(Key::Num5)
    } else if name == "T"@ {
        Some(Key::T)
    } else if name == "G"@ {
        Some(Key::G)
    } else if name == "V"@ {
        Some(Key::V)
    } else if name == "6"@ {
        Some(Key::Num6)
    } else if name == "Y"@ {
        Some(Key::Y)
    } else if name == "H"@ {
        Some(Key::H)
    } else if name == "B"@ {
        Some(Key::B)
    } else if name == "Space"@ {
        Some(Key::Space)
    } else if name == "7"@ {
        Some(Key::Num7)
    } else if name == "U"@ {
        Some(Key::U)
    } else if name == "J"@ {
        Some(Key::J)
    } else if name == "N"@ {
        Some(Key::N)
    } else if name == "8"@ {
        Some(Key::Num8)
    } else if name == "I"@ {
        Some(Key::I)
    } else if name == "K"@ {
        Some(Key::K)
    } else if name == "M"@ {
        Some(Key::M)
    } else if name == "9"@ {
        Some(Key::Num9)
    } else if name == "O"@ {
        Some(Key::O)
    } else if name == "L"@ {
        Some(Key::L)
    } else if name == ","@ {
        Some(Key::Comma)
    } else if name == "0"@ {
        Some(Key::Num0)
    } else if name == "P"@ {
        Some(Key::P)
    } else if name == ";"@ {
        Some(Key::Semicolon)
    } else if name == "."@ {
        Some(Key::Dot)
    } else if name == "RAlt"@ {
        Some(Key::RAlt)
    } else if name == "-"@ {
        Some(Key::Minus)
    } else if name == "["@ {
        Some(Key::LeftBracket)
    } else if name == "'"@ {
        Some(Key::Apostrophe)
    } else if name == "/"@ {
        Some(Key::Slash)
    } else if name == "="@ {
        Some(Key::Equal)
    } else if name == "]"@ {
        Some(Key::RightBracket)
    } else if name == "RShift"@ {
        Some(Key::RShift)
    } else if name == "Application"@ {
        Some(Key::Application)
    } else if name == "Backspace"@ {
        Some(Key::Backspace)
    } else if name == "\\"@ {
        Some(Key::Backslash)
    } else if name == "Enter"@ {
        Some(Key::Enter)
    } else if name == "RCtrl"@ {
        Some(Key::RCtrl)
    } else {
        None
    }
}

proof fn lemma_key_of_code(k: Key)
    ensures
        key_of_code(spec_code(k)) == Some(k),
{
}

/// Usage codes are unique: two keys with the same code are the same key.
pub proof fn lemma_codes_unique(a: Key, b: Key)
    ensures
        spec_code(a) == spec_code(b) ==> a == b,
{
    lemma_key_of_code(a);
    lemma_key_of_code(b);
}

/// Looking up a key's DB name gives back the key.
pub proof fn lemma_db_name_round_trip(k: Key)
    ensures
        spec_db_name(k) matches Some(n) ==> spec_db_key_of(n) == Some(k),
{
    lemma_name_literals();
}

/// The key names used by the tables, character by character.
pub(crate) proof fn lemma_name_literals()
    ensures
        "'"@.len() == 1,
        "'"@[0] == '\'',
        ","@.len() == 1,
        ","@[0] == ',',
        "-"@.len() == 1,
        "-"@[0] == '-',
        "."@.len() == 1,
        "."@[0] == '.',
        "/"@.len() == 1,
        "/"@[0] == '/',
        "0"@.len() == 1,
        "0"@[0] == '0',
        "1"@.len() == 1,
        "1"@[0] == '1',
        "2"@.len() == 1,
        "2"@[0] == '2',
        "3"@.len() == 1,
        "3"@[0] == '3',
        "4"@.len() == 1,
        "4"@[0] == '4',
        "5"@.len() == 1,
        "5"@[0] == '5',
        "6"@.len() == 1,
        "6"@[0] == '6',
        "7"@.len() == 1,
        "7"@[0] == '7',
        "8"@.len() == 1,
        "8"@[0] == '8',
        "9"@.len() == 1,
        "9"@[0] == '9',
        ";"@.len() == 1,
        ";"@[0] == ';',
        "="@.len() == 1,
        "="@[0] == '=',
        "A"@.len() == 1,
        "A"@[0] == 'A',
        "Application"@.len() == 11,
        "Application"@[0] == 'A',
        "Application"@[1] == 'p',
        "Application"@[2] == 'p',
        "Application"@[3] == 'l',
        "Application"@[4] == 'i',
        "Application"@[5] == 'c',
        "Application"@[6] == 'a',
        "Application"@[7] == 't',
        "Application"@[8] == 'i',
        "Application"@[9] == 'o',
        "Application"@[10] == 'n',
        "B"@.len() == 1,
        "B"@[0] == 'B',
        "Backspace"@.len() == 9,
        "Backspace"@[0] == 'B',
        "Backspace"@[1] == 'a',
        "Backspace"@[2] == 'c',
        "Backspace"@[3] == 'k',
        "Backspace"@[4] == 's',
        "Backspace"@[5] == 'p',
        "Backspace"@[6] == 'a',
        "Backspace"@[7] == 'c',
        "Backspace"@[8] == 'e',
        "C"@.len() == 1,
        "C"@[0] == 'C',
        "CapsLock"@.len() == 8,
        "CapsLock"@[0] == 'C',
        "CapsLock"@[1] == 'a',
        "CapsLock"@[2] == 'p',
        "CapsLock"@[3] == 's',
        "CapsLock"@[4] == 'L',
        "CapsLock"@[5] == 'o',
        "CapsLock"@[6] == 'c',
        "CapsLock"@[7] == 'k',
        "D"@.len() == 1,
        "D"@[0] == 'D',
        "E"@.len() == 1,
        "E"@[0] == 'E',
        "Enter"@.len() == 5,
        "Enter"@[0] == 'E',
        "Enter"@[1] == 'n',
        "Enter"@[2] == 't',
        "Enter"@[3] == 'e',
        "Enter"@[4] == 'r',
        "Esc"@.len() == 3,
        "Esc"@[0] == 'E',
        "Esc"@[1] == 's',
        "Esc"@[2] == 'c',
        "F"@.len() == 1,
        "F"@[0] == 'F',
        "Fn"@.len() == 2,
        "Fn"@[0] == 'F',
        "Fn"@[1] == 'n',
        "G"@.len() == 1,
        "G"@[0] == 'G',
        "H"@.len() == 1,
        "H"@[0] == 'H',
        "I"@.len() == 1,
        "I"@[0] == 'I',
        "J"@.len() == 1,
        "J"@[0] == 'J',
        "K"@.len() == 1,
        "K"@[0] == 'K',
        "L"@.len() == 1,
        "L"@[0] == 'L',
        "LAlt"@.len() == 4,
        "LAlt"@[0] == 'L',
        "LAlt"@[1] == 'A',
        "LAlt"@[2] == 'l',
        "LAlt"@[3] == 't',
        "LCtrl"@.len() == 5,
        "LCtrl"@[0] == 'L',
        "LCtrl"@[1] == 'C',
        "LCtrl"@[2] == 't',
        "LCtrl"@[3] == 'r',
        "LCtrl"@[4] == 'l',
        "LMeta"@.len() == 5,
        "LMeta"@[0] == 'L',
        "LMeta"@[1] == 'M',
        "LMeta"@[2] == 'e',
        "LMeta"@[3] == 't',
        "LMeta"@[4] == 'a',
        "LShift"@.len() == 6,
        "LShift"@[0] == 'L',
        "LShift"@[1] == 'S',
        "LShift"@[2] == 'h',
        "LShift"@[3] == 'i',
        "LShift"@[4] == 'f',
        "LShift"@[5] == 't',
        "M"@.len() == 1,
        "M"@[0] == 'M',
        "N"@.len() == 1,
        "N"@[0] == 'N',
        "O"@.len() == 1,
        "O"@[0] == 'O',
        "P"@.len() == 1,
        "P"@[0] == 'P',
        "Q"@.len() == 1,
        "Q"@[0] == 'Q',
        "R"@.len() == 1,
        "R"@[0] == 'R',
        "RAlt"@.len() == 4,
        "RAlt"@[0] == 'R',
        "RAlt"@[1] == 'A',
        "RAlt"@[2] == 'l',
        "RAlt"@[3] == 't',
        "RCtrl"@.len() == 5,
        "RCtrl"@[0] == 'R',
        "RCtrl"@[1] == 'C',
        "RCtrl"@[2] == 't',
        "RCtrl"@[3] == 'r',
        "RCtrl"@[4] == 'l',
        "RMeta"@.len() == 5,
        "RMeta"@[0] == 'R',
        "RMeta"@[1] == 'M',
        "RMeta"@[2] == 'e',
        "RMeta"@[3] == 't',
        "RMeta"@[4] == 'a',
        "RShift"@.len() == 6,
        "RShift"@[0] == 'R',
        "RShift"@[1] == 'S',
        "RShift"@[2] == 'h',
        "RShift"@[3] == 'i',
        "RShift"@[4] == 'f',
        "RShift"@[5] == 't',
        "S"@.len() == 1,
        "S"@[0] == 'S',
        "Space"@.len() == 5,
        "Space"@[0] == 'S',
        "Space"@[1] == 'p',
        "Space"@[2] == 'a',
        "Space"@[3] == 'c',
        "Space"@[4] == 'e',
        "T"@.len() == 1,
        "T"@[0] == 'T',
        "Tab"@.len() == 3,
        "Tab"@[0] == 'T',
        "Tab"@[1] == 'a',
        "Tab"@[2] == 'b',
        "U"@.len() == 1,
        "U"@[0] == 'U',
        "V"@.len() == 1,
        "V"@[0] == 'V',
        "W"@.len() == 1,
        "W"@[0] == 'W',
        "X"@.len() == 1,
        "X"@[0] == 'X',
        "Y"@.len() == 1,
        "Y"@[0] == 'Y',
        "Z"@.len() == 1,
        "Z"@[0] == 'Z',
        "["@.len() == 1,
        "["@[0] == '[',
        "\\"@.len() == 1,
        "\\"@[0] == '\\',
        "]"@.len() == 1,
        "]"@[0] == ']',
        "`"@.len() == 1,
        "`"@[0] == '`',
{
    reveal_strlit("'");
    reveal_strlit(",");
    reveal_strlit("-");
    reveal_strlit(".");
    reveal_strlit("/");
    reveal_strlit("0");
    reveal_strlit("1");
    reveal_strlit("2");
    reveal_strlit("3");
    reveal_strlit("4");
    reveal_strlit("5");
    reveal_strlit("6");
    reveal_strlit("7");
    reveal_strlit("8");
    reveal_strlit("9");
    reveal_strlit(";");
    reveal_strlit("=");
    reveal_strlit("A");
    reveal_strlit("Application");
    reveal_strlit("B");
    reveal_strlit("Backspace");
    reveal_strlit("C");
    reveal_strlit("CapsLock");
    reveal_strlit("D");
    reveal_strlit("E");
    reveal_strlit("Enter");
    reveal_strlit("Esc");
    reveal_strlit("F");
    reveal_strlit("Fn");
    reveal_strlit("G");
    reveal_strlit("H");
    reveal_strlit("I");
    reveal_strlit("J");
    reveal_strlit("K");
    reveal_strlit("L");
    reveal_strlit("LAlt");
    reveal_strlit("LCtrl");
    reveal_strlit("LMeta");
    reveal_strlit("LShift");
    reveal_strlit("M");
    reveal_strlit("N");
    reveal_strlit("O");
    reveal_strlit("P");
    reveal_strlit("Q");
    reveal_strlit("R");
    reveal_strlit("RAlt");
    reveal_strlit("RCtrl");
    reveal_strlit("RMeta");
    reveal_strlit("RShift");
    reveal_strlit("S");
    reveal_strlit("Space");
    reveal_strlit("T");
    reveal_strlit("Tab");
    reveal_strlit("U");
    reveal_strlit("V");
    reveal_strlit("W");
    reveal_strlit("X");
    reveal_strlit("Y");
    reveal_strlit("Z");
    reveal_strlit("[");
    reveal_strlit("\\");
    reveal_strlit("]");
    reveal_strlit("`");
}

/// A DB name that stands for a key is that key's DB name: the lookup
/// accepts exactly the names `db_name` gives.
pub proof fn lemma_db_key_of_inverse(name: Seq<char>)
    ensures
        spec_db_key_of(name) matches Some(k) ==> spec_db_name(k) == Some(name),
{
}

/// `db_key_of` is the inverse of `db_name`: a name stands for a key exactly
/// when it is that key's DB name, and no two keys share a DB name.
pub proof fn lemma_db_names_inverse(name: Seq<char>, k: Key)
    ensures
        spec_db_key_of(name) == Some(k) <==> spec_db_name(k) == Some(name),
{
    lemma_db_key_of_inverse(name);
    lemma_db_name_round_trip(k);
}

/// No two keys share a DB name.
pub proof fn lemma_db_names_unique(k1: Key, k2: Key)
    ensures
        spec_db_name(k1) is Some && spec_db_name(k1) == spec_db_name(k2) ==> k1 == k2,
{
    lemma_db_name_round_trip(k1);
    lemma_db_name_round_trip(k2);
}

impl Key {
    /// HID usage code for this key.
    pub fn code(self) -> (c: u16)
        ensures
            c == spec_code(self),
    {
        match self {
            Key::A => 0x04,
            Key::B => 0x05,
            Key::C => 0x06,
            Key::D => 0x07,
            Key::E => 0x08,
            Key::F => 0x09,
            Key::G => 0x0A,
            Key::H => 0x0B,
            Key::I => 0x0C,
            Key::J => 0x0D,
            Key::K => 0x0E,
            Key::L => 0x0F,
            Key::M => 0x10,
            Key::N => 0x11,
            Key::O => 0x12,
            Key::P => 0x13,
            Key::Q => 0x14,
            Key::R => 0x15,
            Key::S => 0x16,
            Key::T => 0x17,
            Key::U => 0x18,
            Key::V => 0x19,
            Key::W => 0x1A,
            Key::X => 0x1B,
            Key::Y => 0x1C,
            Key::Z => 0x1D,
            Key::Num1 => 0x1E,
            Key::Num2 => 0x1F,
            Key::Num3 => 0x20,
            Key::Num4 => 0x21,
            Key::Num5 => 0x22,
            Key::Num6 => 0x23,
            Key::Num7 => 0x24,
            Key::Num8 => 0x25,
            Key::Num9 => 0x26,
            Key::Num0 => 0x27,
            Key::Enter => 0x28,
            Key::Escape => 0x29,
            Key::Backspace => 0x2A,
            Key::Tab => 0x2B,
            Key::Space => 0x2C,
            Key::CapsLock => 0x39,
            Key::Minus => 0x2D,
            Key::Equal => 0x2E,
            Key::LeftBracket => 0x2F,
            Key::RightBracket => 0x30,
            Key::Backslash => 0x31,
            Key::NonUsHash => 0x32,
            Key::Semicolon => 0x33,
            Key::Apostrophe => 0x34,
            Key::Grave => 0x35,
            Key::Comma => 0x36,
            Key::Dot => 0x37,
            Key::Slash => 0x38,
            Key::LCtrl => 0xE0,
            Key::LShift => 0xE1,
            Key::LAlt => 0xE2,
            Key::LMeta => 0xE3,
            Key::RCtrl => 0xE4,
            Key::RShift => 0xE5,
            Key::RAlt => 0xE6,
            Key::RMeta => 0xE7,
            Key::Application => 0x65,
            Key::F1 => 0x3A,
            Key::F2 => 0x3B,
            Key::F3 => 0x3C,
            Key::F4 => 0x3D,
            Key::F5 => 0x3E,
            Key::F6 => 0x3F,
            Key::F7 => 0x40,
            Key::F8 => 0x41,
            Key::F9 => 0x42,
            Key::F10 => 0x43,
            Key::F11 => 0x44,
            Key::F12 => 0x45,
            Key::Left => 0x50,
            Key::Right => 0x4F,
            Key::Up => 0x52,
            Key::Down => 0x51,
        }
    }

    /// The DB name for this key (as used by the FUN60 matrix table), if any.
    ///
    /// Returns None for keys not on the FUN60 Ultra layout.
    pub fn db_name(self) -> (r: Option<&'static str>)
        ensures
            match r {
                Some(s) => spec_db_name(self) == Some(s@),
                None => spec_db_name(self) is None,
            },
    {
        match self {
            Key::Escape => Some("Esc"),
            Key::Tab => Some("Tab"),
            Key::CapsLock => Some("CapsLock"),
            Key::LShift => Some("LShift"),
            Key::LCtrl => Some("LCtrl"),
            Key::Num1 => Some("1"),
            Key::Q => Some("Q"),
            Key::A => Some("A"),
            Key::Num2 => Some("2"),
            Key::W => Some("W"),
            Key::S => Some("S"),
            Key::Z => Some("Z"),
            Key::LMeta => Some("LMeta"),
            Key::Num3 => Some("3"),
            Key::E => Some("E"),
            Key::D => Some("D"),
            Key::X => Some("X"),
            Key::LAlt => Some("LAlt"),
            Key::Num4 => Some("4"),
            Key::R => Some("R"),
            Key::F => Some("F"),
            Key::C => Some("C"),
            Key::Num5 => Some("5"),
            Key::T => Some("T"),
            Key::G => Some("G"),
            Key::V => Some("V"),
            Key::Num6 => Some("6"),
            Key::Y => Some("Y"),
            Key::H => Some("H"),
            Key::B => Some("B"),
            Key::Space => Some("Space"),
            Key::Num7 => Some("7"),
            Key::U => Some("U"),
            Key::J => Some("J"),
            Key::N => Some("N"),
            Key::Num8 => Some("8"),
            Key::I => Some("I"),
            Key::K => Some("K"),
            Key::M => Some("M"),
            Key::Num9 => Some("9"),
            Key::O => Some("O"),
            Key::L => Some("L"),
            Key::Comma => Some(","),
            Key::Num0 => Some("0"),
            Key::P => Some("P"),
            Key::Semicolon => Some(";"),
            Key::Dot => Some("."),
            Key::RAlt => Some("RAlt"),
            Key::Minus => Some("-"),
            Key::LeftBracket => Some("["),
            Key::Apostrophe => Some("'"),
            Key::Slash => Some("/"),
            Key::Equal => Some("="),
            Key::RightBracket => Some("]"),
            Key::RShift => Some("RShift"),
            Key::Application => Some("Application"),
            Key::Backspace => Some("Backspace"),
            Key::Backslash => Some("\\"),
            Key::Enter => Some("Enter"),
            Key::RCtrl => Some("RCtrl"),
            _ => None,
        }
    }

    /// Inverse of [`Key::db_name`]: the Key for a DB name, if any.
    ///
    /// This is the authoritative name -> Key mapping used by the keymap.
    pub fn db_key_of(name: &str) -> (r: Option<Self>)
        ensures
            r == spec_db_key_of(name@),
    {
        if str_eq(name, "Esc") {
            return Some(Key::Escape);
        }
        if str_eq(name, "Tab") {
            return Some(Key::Tab);
        }
        if str_eq(name, "CapsLock") {
            return Some(Key::CapsLock);
        }
        if str_eq(name, "LShift") {
            return Some(Key::LShift);
        }
        if str_eq(name, "LCtrl") {
            return Some(Key::LCtrl);
        }
        if str_eq(name, "1") {
            return Some(Key::Num1);
        }
        if str_eq(name, "Q") {
            return Some(Key::Q);
        }
        if str_eq(name, "A") {
            return Some(Key::A);
        }
        if str_eq(name, "2") {
            return Some(Key::Num2);
        }
        if str_eq(name, "W") {
            return Some(Key::W);
        }
        if str_eq(name, "S") {
            return Some(Key::S);
        }
        if str_eq(name, "Z") {
            return Some(Key::Z);
        }
        if str_eq(name, "LMeta") {
            return Some(Key::LMeta);
        }
        if str_eq(name, "3") {
            return Some(Key::Num3);
        }
        if str_eq(name, "E") {
            return Some(Key::E);
        }
        if str_eq(name, "D") {
            return Some(Key::D);
        }
        if str_eq(name, "X") {
            return Some(Key::X);
        }
        if str_eq(name, "LAlt") {
            return Some(Key::LAlt);
        }
        if str_eq(name, "4") {
            return Some(Key::Num4);
        }
        if str_eq(name, "R") {
            return Some(Key::R);
        }
        if str_eq(name, "F") {
            return Some(Key::F);
        }
        if str_eq(name, "C") {
            return Some(Key::C);
        }
        if str_eq(name, "5") {
            return Some(Key::Num5);
        }
        if str_eq(name, "T") {
            return Some(Key::T);
        }
        if str_eq(name, "G") {
            return Some(Key::G);
        }
        if str_eq(name, "V") {
            return Some(Key::V);
        }
        if str_eq(name, "6") {
            return Some(Key::Num6);
        }
        if str_eq(name, "Y") {
            return Some(Key::Y);
        }
        if str_eq(name, "H") {
            return Some(Key::H);
        }
        if str_eq(name, "B") {
            return Some(Key::B);
        }
        if str_eq(name, "Space") {
            return Some(Key::Space);
        }
        if str_eq(name, "7") {
            return Some(Key::Num7);
        }
        if str_eq(name, "U") {
            return Some(Key::U);
        }
        if str_eq(name, "J") {
            return Some(Key::J);
        }
        if str_eq(name, "N") {
            return Some(Key::N);
        }
        if str_eq(name, "8") {
            return Some(Key::Num8);
        }
        if str_eq(name, "I") {
            return Some(Key::I);
        }
        if str_eq(name, "K") {
            return Some(Key::K);
        }
        if str_eq(name, "M") {
            return Some(Key::M);
        }
        if str_eq(name, "9") {
            return Some(Key::Num9);
        }
        if str_eq(name, "O") {
            return Some(Key::O);
        }
        if str_eq(name, "L") {
            return Some(Key::L);
        }
        if str_eq(name, ",") {
            return Some(Key::Comma);
        }
        if str_eq(name, "0") {
            return Some(Key::Num0);
        }
        if str_eq(name, "P") {
            return Some(Key::P);
        }
        if str_eq(name, ";") {
            return Some(Key::Semicolon);
        }
        if str_eq(name, ".") {
            return Some(Key::Dot);
        }
        if str_eq(name, "RAlt") {
            return Some(Key::RAlt);
        }
        if str_eq(name, "-") {
            return Some(Key::Minus);
        }
        if str_eq(name, "[") {
            return Some(Key::LeftBracket);
        }
        if str_eq(name, "'") {
            return Some(Key::Apostrophe);
        }
        if str_eq(name, "/") {
            return Some(Key::Slash);
        }
        if str_eq(name, "=") {
            return Some(Key::Equal);
        }
        if str_eq(name, "]") {
            return Some(Key::RightBracket);
        }
        if str_eq(name, "RShift") {
            return Some(Key::RShift);
        }
        if str_eq(name, "Application") {
            return Some(Key::Application);
        }
        if str_eq(name, "Backspace") {
            return Some(Key::Backspace);
        }
        if str_eq(name, "\\") {
            return Some(Key::Backslash);
        }
        if str_eq(name, "Enter") {
            return Some(Key::Enter);
        }
        if str_eq(name, "RCtrl") {
            return Some(Key::RCtrl);
        }
        None
    }
}

/// Whether two strings hold the same characters.
pub(crate) fn str_eq(a: &str, b: &str) -> (r: bool)
    ensures
        r == (a@ == b@),
{
    let x = a.as_bytes();
    let y = b.as_bytes();
    let eq = bytes_eq(x, y);
    proof {
        vstd::utf8::encode_utf8_decode_utf8(a@);
        vstd::utf8::encode_utf8_decode_utf8(b@);
    }
    eq
}

fn bytes_eq(x: &[u8], y: &[u8]) -> (r: bool)
    ensures
        r == (x@ == y@),
{
    if x.len() != y.len() {
        return false;
    }
    let mut i: usize = 0;
    while i < x.len()
        invariant
            x@.len() == y@.len(),
            i <= x@.len(),
            forall|j: int| 0 <= j < i ==> x@[j] == y@[j],
        decreases x@.len() - i,
    {
        if x[i] != y[i] {
            return false;
        }
        i = i + 1;
    }
    assert(x@ =~= y@);
    true
}

/// The letters, in alphabetical order.
pub open spec fn letter_keys() -> Seq<Key> {
    seq![
        Key::A, Key::B, Key::C, Key::D, Key::E, Key::F, Key::G, Key::H, Key::I, Key::J, Key::K,
        Key::L, Key::M, Key::N, Key::O, Key::P, Key::Q, Key::R, Key::S, Key::T, Key::U, Key::V,
        Key::W, Key::X, Key::Y, Key::Z,
    ]
}

/// The digit row, 1 to 9 then 0.
pub open spec fn digit_keys() -> Seq<Key> {
    seq![
        Key::Num1, Key::Num2, Key::Num3, Key::Num4, Key::Num5, Key::Num6, Key::Num7, Key::Num8,
        Key::Num9, Key::Num0,
    ]
}

/// Enter through F12, in usage-table order.
pub open spec fn control_keys() -> Seq<Key> {
    seq![
        Key::Enter, Key::Escape, Key::Backspace, Key::Tab, Key::Space, Key::Minus, Key::Equal,
        Key::LeftBracket, Key::RightBracket, Key::Backslash, Key::NonUsHash, Key::Semicolon,
        Key::Apostrophe, Key::Grave, Key::Comma, Key::Dot, Key::Slash, Key::CapsLock, Key::F1,
        Key::F2, Key::F3, Key::F4, Key::F5, Key::F6, Key::F7, Key::F8, Key::F9, Key::F10, Key::F11,
        Key::F12,
    ]
}

/// The arrows, in usage-table order.
pub open spec fn arrow_keys() -> Seq<Key> {
    seq![Key::Right, Key::Left, Key::Down, Key::Up]
}

/// The modifiers, left then right, Ctrl, Shift, Alt, Meta.
pub open spec fn modifier_keys() -> Seq<Key> {
    seq![
        Key::LCtrl, Key::LShift, Key::LAlt, Key::LMeta, Key::RCtrl, Key::RShift, Key::RAlt,
        Key::RMeta,
    ]
}

/// The codes follow the HID Keyboard/Keypad usage table: letters A-Z are
/// 0x04-0x1D, the digit row 1-9, 0 is 0x1E-0x27, Enter through F12 run
/// 0x28-0x45, the arrows Right, Left, Down, Up are 0x4F-0x52, Application
/// is 0x65, and the modifiers are 0xE0-0xE7; every key is in one of these.
pub proof fn lemma_usage_table_blocks(k: Key)
    ensures
        forall|i: int| 0 <= i < 26 ==> spec_code(#[trigger] letter_keys()[i]) == 0x04 + i,
        forall|i: int| 0 <= i < 10 ==> spec_code(#[trigger] digit_keys()[i]) == 0x1E + i,
        forall|i: int| 0 <= i < 30 ==> spec_code(#[trigger] control_keys()[i]) == 0x28 + i,
        forall|i: int| 0 <= i < 4 ==> spec_code(#[trigger] arrow_keys()[i]) == 0x4F + i,
        forall|i: int| 0 <= i < 8 ==> spec_code(#[trigger] modifier_keys()[i]) == 0xE0 + i,
        spec_code(Key::Application) == 0x65,
        letter_keys().contains(k) || digit_keys().contains(k) || control_keys().contains(k)
            || arrow_keys().contains(k) || modifier_keys().contains(k) || k == Key::Application,
{
    assert forall|i: int| 0 <= i < 26 implies spec_code(#[trigger] letter_keys()[i]) == 0x04 + i by {
        assert(0 <= i < 26);
    }
    assert forall|i: int| 0 <= i < 10 implies spec_code(#[trigger] digit_keys()[i]) == 0x1E + i by {
    }
    assert forall|i: int| 0 <= i < 30 implies spec_code(#[trigger] control_keys()[i]) == 0x28 + i by {
    }
    assert forall|i: int| 0 <= i < 4 implies spec_code(#[trigger] arrow_keys()[i]) == 0x4F + i by {
    }
    assert forall|i: int| 0 <= i < 8 implies spec_code(#[trigger] modifier_keys()[i]) == 0xE0 + i by {
    }
    match k {
        _ => {},
    }
}

} // verus!
