//! FUN60 Ultra matrix-index -> HID usage-code mapping.
//!
//! Matrix indices come from the depth server; the DB layout for device
//! 12625:20528:2307 (FUN60 Ultra, `Common61_gk06`) names 60 keys. Names are
//! translated to USB HID Keyboard/Keypad usage codes (page 0x07), which is
//! the Wooting Analog SDK's default keycode mode.
//!
//! Keys without a mapping are reported in the custom-key space (0x0200 +
//! matrix index) so they're still observable by SDK consumers.

use crate::hid::{Key, str_eq};
use vstd::prelude::*;

verus! {

/// Custom-key prefix for matrix indices without a standard HID mapping.
pub const CUSTOM_KEY_BASE: u16 = 0x0200;

/// Full travel of the FUN60 Ultra switches in depth_raw units (0.01mm).
/// Observed full-press max was 350; can be overridden at runtime.
pub const DEFAULT_FULL_TRAVEL: u16 = 350;

/// Matrix index -> key name for the FUN60 Ultra (device ID 2307).
///
/// Positions without a physical key (matrix placeholders) are omitted.
pub open spec fn spec_matrix_names() -> Seq<(u8, Seq<char>)> {
    seq![
        (1u8, "Esc"@),
        (2u8, "Tab"@),
        (3u8, "CapsLock"@),
        (4u8, "LShift"@),
        (5u8, "LCtrl"@),
        (7u8, "1"@),
        (8u8, "Q"@),
        (9u8, "A"@),
        (13u8, "2"@),
        (14u8, "W"@),
        (15u8, "S"@),
        (16u8, "Z"@),
        (17u8, "LMeta"@),
        (19u8, "3"@),
        (20u8, "E"@),
        (21u8, "D"@),
        (22u8, "X"@),
        (23u8, "LAlt"@),
        (25u8, "4"@),
        (26u8, "R"@),
        (27u8, "F"@),
        (28u8, "C"@),
        (31u8, "5"@),
        (32u8, "T"@),
        (33u8, "G"@),
        (34u8, "V"@),
        (37u8, "6"@),
        (38u8, "Y"@),
        (39u8, "H"@),
        (40u8, "B"@),
        (41u8, "Space"@),
        (43u8, "7"@),
        (44u8, "U"@),
        (45u8, "J"@),
        (46u8, "N"@),
        (49u8, "8"@),
        (50u8, "I"@),
        (51u8, "K"@),
        (52u8, "M"@),
        (55u8, "9"@),
        (56u8, "O"@),
        (57u8, "L"@),
        (58u8, ","@),
        (61u8, "0"@),
        (62u8, "P"@),
        (63u8, ";"@),
        (64u8, "."@),
        (65u8, "RAlt"@),
        (67u8, "-"@),
        (68u8, "["@),
        (69u8, "'"@),
        (70u8, "/"@),
        (73u8, "="@),
        (74u8, "]"@),
        (76u8, "RShift"@),
        (77u8, "Application"@),
        (79u8, "Backspace"@),
        (80u8, "\\"@),
        (81u8, "Enter"@),
        (83u8, "RCtrl"@),
    ]
}

/// Matrix index -> key name for the FUN60 Ultra (device ID 2307): the
/// named matrix positions, by ascending index. Names correspond to
/// [`Key::db_name`]. The Fn position (matrix index 71) has no HID usage and
/// is not listed.
pub fn fun60_matrix_names() -> (r: Vec<(u8, &'static str)>)
    ensures
        names_view(r@) == spec_matrix_names(),
{
    let mut v: Vec<(u8, &'static str)> = Vec::new();
    v.push((1u8, "Esc"));
    v.push((2u8, "Tab"));
    v.push((3u8, "CapsLock"));
    v.push((4u8, "LShift"));
    v.push((5u8, "LCtrl"));
    v.push((7u8, "1"));
    v.push((8u8, "Q"));
    v.push((9u8, "A"));
    v.push((13u8, "2"));
    v.push((14u8, "W"));
    v.push((15u8, "S"));
    v.push((16u8, "Z"));
    v.push((17u8, "LMeta"));
    v.push((19u8, "3"));
    v.push((20u8, "E"));
    v.push((21u8, "D"));
    v.push((22u8, "X"));
    v.push((23u8, "LAlt"));
    v.push((25u8, "4"));
    v.push((26u8, "R"));
    v.push((27u8, "F"));
    v.push((28u8, "C"));
    v.push((31u8, "5"));
    v.push((32u8, "T"));
    v.push((33u8, "G"));
    v.push((34u8, "V"));
    v.push((37u8, "6"));
    v.push((38u8, "Y"));
    v.push((39u8, "H"));
    v.push((40u8, "B"));
    v.push((41u8, "Space"));
    v.push((43u8, "7"));
    v.push((44u8, "U"));
    v.push((45u8, "J"));
    v.push((46u8, "N"));
    v.push((49u8, "8"));
    v.push((50u8, "I"));
    v.push((51u8, "K"));
    v.push((52u8, "M"));
    v.push((55u8, "9"));
    v.push((56u8, "O"));
    v.push((57u8, "L"));
    v.push((58u8, ","));
    v.push((61u8, "0"));
    v.push((62u8, "P"));
    v.push((63u8, ";"));
    v.push((64u8, "."));
    v.push((65u8, "RAlt"));
    v.push((67u8, "-"));
    v.push((68u8, "["));
    v.push((69u8, "'"));
    v.push((70u8, "/"));
    v.push((73u8, "="));
    v.push((74u8, "]"));
    v.push((76u8, "RShift"));
    v.push((77u8, "Application"));
    v.push((79u8, "Backspace"));
    v.push((80u8, "\\"));
    v.push((81u8, "Enter"));
    v.push((83u8, "RCtrl"));
    assert(names_view(v@) =~= spec_matrix_names());
    v
}

pub open spec fn names_view(v: Seq<(u8, &str)>) -> Seq<(u8, Seq<char>)> {
    v.map_values(|p: (u8, &str)| (p.0, p.1@))
}

/// The positions of `names` whose name stands for a key, with that key, in
/// table order.
pub open spec fn keys_of_names(names: Seq<(u8, Seq<char>)>) -> Seq<(u8, Key)>
    decreases names.len(),
{
    if names.len() == 0 {
        Seq::empty()
    } else {
        let rest = keys_of_names(names.drop_last());
        match crate::hid::spec_db_key_of(names.last().1) {
            Some(k) => rest.push((names.last().0, k)),
            None => rest,
        }
    }
}

/// The positions of `names` whose name stands for no key, in the
/// custom-key space, in table order.
pub open spec fn custom_of_names(names: Seq<(u8, Seq<char>)>) -> Seq<(u8, u16)>
    decreases names.len(),
{
    if names.len() == 0 {
        Seq::empty()
    } else {
        let rest = custom_of_names(names.drop_last());
        match crate::hid::spec_db_key_of(names.last().1) {
            Some(_) => rest,
            None => rest.push((names.last().0, (CUSTOM_KEY_BASE + names.last().0) as u16)),
        }
    }
}

pub open spec fn codes_of_keys(ks: Seq<(u8, Key)>) -> Seq<(u8, u16)> {
    ks.map_values(|p: (u8, Key)| (p.0, crate::hid::spec_code(p.1)))
}

/// The matrix-index -> HID-code table: mapped positions first, then the
/// custom-key fallbacks.
pub open spec fn spec_matrix_to_hid() -> Seq<(u8, u16)> {
    codes_of_keys(keys_of_names(spec_matrix_names())) + custom_of_names(spec_matrix_names())
}

/// Matrix index -> [`Key`] for the FUN60 Ultra.
///
/// Derived from the matrix name table; positions whose names have no `Key`
/// mapping are omitted.
pub fn build_matrix_to_key() -> (r: Vec<(u8, Key)>)
    ensures
        r@ == keys_of_names(spec_matrix_names()),
{
    let names = fun60_matrix_names();
    let mut out: Vec<(u8, Key)> = Vec::new();
    let mut i: usize = 0;
    while i < names.len()
        invariant
            i <= names@.len(),
            names_view(names@) == spec_matrix_names(),
            out@ == keys_of_names(names_view(names@).take(i as int)),
        decreases names@.len() - i,
    {
        let (idx, name) = names[i];
        assert(names_view(names@).take(i + 1).drop_last() =~= names_view(names@).take(i as int));
        match Key::db_key_of(name) {
            Some(key) => out.push((idx, key)),
            None => {},
        }
        i = i + 1;
    }
    assert(names_view(names@).take(names@.len() as int) =~= names_view(names@));
    out
}

/// Build the matrix-index -> HID-code table.
///
/// The returned table has one entry per named matrix position; keys with no
/// standard HID mapping get `CUSTOM_KEY_BASE + matrix_index`.
pub fn build_matrix_to_hid() -> (r: Vec<(u8, u16)>)
    ensures
        r@ == spec_matrix_to_hid(),
{
    let keys = build_matrix_to_key();
    let mut out: Vec<(u8, u16)> = Vec::new();
    let mut i: usize = 0;
    while i < keys.len()
        invariant
            i <= keys@.len(),
            keys@ == keys_of_names(spec_matrix_names()),
            out@ == codes_of_keys(keys@.take(i as int)),
        decreases keys@.len() - i,
    {
        let (idx, key) = keys[i];
        out.push((idx, key.code()));
        assert(codes_of_keys(keys@.take(i + 1)) =~= codes_of_keys(keys@.take(i as int)).push((idx, crate::hid::spec_code(key))));
        i = i + 1;
    }
    assert(keys@.take(keys@.len() as int) =~= keys@);
    let names = fun60_matrix_names();
    let ghost mapped = out@;
    let mut j: usize = 0;
    while j < names.len()
        invariant
            j <= names@.len(),
            names_view(names@) == spec_matrix_names(),
            out@ == mapped + custom_of_names(names_view(names@).take(j as int)),
        decreases names@.len() - j,
    {
        let (idx, name) = names[j];
        assert(names_view(names@).take(j + 1).drop_last() =~= names_view(names@).take(j as int));
        if Key::db_key_of(name).is_none() {
            out.push((idx, CUSTOM_KEY_BASE + idx as u16));
            assert(out@ =~= mapped + custom_of_names(names_view(names@).take(j + 1)));
        }
        j = j + 1;
    }
    assert(names_view(names@).take(names@.len() as int) =~= names_view(names@));
    out
}

/// The HID code named by a key name of the legacy name table. None = no
/// standard HID mapping.
pub open spec fn spec_hid_code_for(name: Seq<char>) -> Option<u16> {
    if name == "Esc"@ {
        Some(crate::hid::spec_code(Key::Escape))
    } else if name == "Tab"@ {
        Some(crate::hid::spec_code(Key::Tab))
    } else if name == "CapsLock"@ {
        Some(crate::hid::spec_code(Key::CapsLock))
    } else if name == "Space"@ {
        Some(crate::hid::spec_code(Key::Space))
    } else if name == "Backspace"@ {
        Some(crate::hid::spec_code(Key::Backspace))
    } else if name == "Enter"@ {
        Some(crate::hid::spec_code(Key::Enter))
    } else if name == "-"@ {
        Some(crate::hid::spec_code(Key::Minus))
    } else if name == "="@ {
        Some(crate::hid::spec_code(Key::Equal))
    } else if name == "["@ {
        Some(crate::hid::spec_code(Key::LeftBracket))
    } else if name == "]"@ {
        Some(crate::hid::spec_code(Key::RightBracket))
    } else if name == "\\"@ {
        Some(crate::hid::spec_code(Key::Backslash))
    } else if name == ";"@ {
        Some(crate::hid::spec_code(Key::Semicolon))
    } else if name == "'"@ {
        Some(crate::hid::spec_code(Key::Apostrophe))
    } else if name == "`"@ {
        Some(crate::hid::spec_code(Key::Grave))
    } else if name == ","@ {
        Some(crate::hid::spec_code(Key::Comma))
    } else if name == "."@ {
        Some(crate::hid::spec_code(Key::Dot))
    } else if name == "/"@ {
        Some(crate::hid::spec_code(Key::Slash))
    } else if name == "LShift"@ {
        Some(crate::hid::spec_code(Key::LShift))
    } else if name == "RShift"@ {
        Some(crate::hid::spec_code(Key::RShift))
    } else if name == "LCtrl"@ {
        Some(crate::hid::spec_code(Key::LCtrl))
    } else if name == "RCtrl"@ {
        Some(crate::hid::spec_code(Key::RCtrl))
    } else if name == "LAlt"@ {
        Some(crate::hid::spec_code(Key::LAlt))
    } else if name == "RAlt"@ {
        Some(crate::hid::spec_code(Key::RAlt))
    } else if name == "LMeta"@ {
        Some(crate::hid::spec_code(Key::LMeta))
    } else if name == "RMeta"@ {
        Some(crate::hid::spec_code(Key::RMeta))
    } else if name == "Application"@ {
        Some(crate::hid::spec_code(Key::Application))
    } else if name == "1"@ {
        Some(crate::hid::spec_code(Key::Num1))
    } else if name == "2"@ {
        Some(crate::hid::spec_code(Key::Num2))
    } else if name == "3"@ {
        Some(crate::hid::spec_code(Key::Num3))
    } else if name == "4"@ {
        Some(crate::hid::spec_code(Key::Num4))
    } else if name == "5"@ {
        Some(crate::hid::spec_code(Key::Num5))
    } else if name == "6"@ {
        Some(crate::hid::spec_code(Key::Num6))
    } else if name == "7"@ {
        Some(crate::hid::spec_code(Key::Num7))
    } else if name == "8"@ {
        Some(crate::hid::spec_code(Key::Num8))
    } else if name == "9"@ {
        Some(crate::hid::spec_code(Key::Num9))
    } else if name == "0"@ {
        Some(crate::hid::spec_code(Key::Num0))
    } else if name == "A"@ {
        Some(crate::hid::spec_code(Key::A))
    } else if name == "B"@ {
        Some(crate::hid::spec_code(Key::B))
    } else if name == "C"@ {
        Some(crate::hid::spec_code(Key::C))
    } else if name == "D"@ {
        Some(crate::hid::spec_code(Key::D))
    } else if name == "E"@ {
        Some(crate::hid::spec_code(Key::E))
    } else if name == "F"@ {
        Some(crate::hid::spec_code(Key::F))
    } else if name == "G"@ {
        Some(crate::hid::spec_code(Key::G))
    } else if name == "H"@ {
        Some(crate::hid::spec_code(Key::H))
    } else if name == "I"@ {
        Some(crate::hid::spec_code(Key::I))
    } else if name == "J"@ {
        Some(crate::hid::spec_code(Key::J))
    } else if name == "K"@ {
        Some(crate::hid::spec_code(Key::K))
    } else if name == "L"@ {
        Some(crate::hid::spec_code(Key::L))
    } else if name == "M"@ {
        Some(crate::hid::spec_code(Key::M))
    } else if name == "N"@ {
        Some(crate::hid::spec_code(Key::N))
    } else if name == "O"@ {
        Some(crate::hid::spec_code(Key::O))
    } else if name == "P"@ {
        Some(crate::hid::spec_code(Key::P))
    } else if name == "Q"@ {
        Some(crate::hid::spec_code(Key::Q))
    } else if name == "R"@ {
        Some(crate::hid::spec_code(Key::R))
    } else if name == "S"@ {
        Some(crate::hid::spec_code(Key::S))
    } else if name == "T"@ {
        Some(crate::hid::spec_code(Key::T))
    } else if name == "U"@ {
        Some(crate::hid::spec_code(Key::U))
    } else if name == "V"@ {
        Some(crate::hid::spec_code(Key::V))
    } else if name == "W"@ {
        Some(crate::hid::spec_code(Key::W))
    } else if name == "X"@ {
        Some(crate::hid::spec_code(Key::X))
    } else if name == "Y"@ {
        Some(crate::hid::spec_code(Key::Y))
    } else if name == "Z"@ {
        Some(crate::hid::spec_code(Key::Z))
    } else {
        None
    }
}

/// HID usage code for a named key, by the legacy name table. None = no
/// standard HID mapping.
///
/// Backed by [`Key`], the single source of truth for codes.
pub fn hid_code_for(name: &str) -> (r: Option<u16>)
    ensures
        r == spec_hid_code_for(name@),
{
    if str_eq(name, "Esc") {
        return Some(Key::Escape.code());
    }
    if str_eq(name, "Tab") {
        return Some(Key::Tab.code());
    }
    if str_eq(name, "CapsLock") {
        return Some(Key::CapsLock.code());
    }
    if str_eq(name, "Space") {
        return Some(Key::Space.code());
    }
    if str_eq(name, "Backspace") {
        return Some(Key::Backspace.code());
    }
    if str_eq(name, "Enter") {
        return Some(Key::Enter.code());
    }
    if str_eq(name, "-") {
        return Some(Key::Minus.code());
    }
    if str_eq(name, "=") {
        return Some(Key::Equal.code());
    }
    if str_eq(name, "[") {
        return Some(Key::LeftBracket.code());
    }
    if str_eq(name, "]") {
        return Some(Key::RightBracket.code());
    }
    if str_eq(name, "\\") {
        return Some(Key::Backslash.code());
    }
    if str_eq(name, ";") {
        return Some(Key::Semicolon.code());
    }
    if str_eq(name, "'") {
        return Some(Key::Apostrophe.code());
    }
    if str_eq(name, "`") {
        return Some(Key::Grave.code());
    }
    if str_eq(name, ",") {
        return Some(Key::Comma.code());
    }
    if str_eq(name, ".") {
        return Some(Key::Dot.code());
    }
    if str_eq(name, "/") {
        return Some(Key::Slash.code());
    }
    if str_eq(name, "LShift") {
        return Some(Key::LShift.code());
    }
    if str_eq(name, "RShift") {
        return Some(Key::RShift.code());
    }
    if str_eq(name, "LCtrl") {
        return Some(Key::LCtrl.code());
    }
    if str_eq(name, "RCtrl") {
        return Some(Key::RCtrl.code());
    }
    if str_eq(name, "LAlt") {
        return Some(Key::LAlt.code());
    }
    if str_eq(name, "RAlt") {
        return Some(Key::RAlt.code());
    }
    if str_eq(name, "LMeta") {
        return Some(Key::LMeta.code());
    }
    if str_eq(name, "RMeta") {
        return Some(Key::RMeta.code());
    }
    if str_eq(name, "Application") {
        return Some(Key::Application.code());
    }
    if str_eq(name, "1") {
        return Some(Key::Num1.code());
    }
    if str_eq(name, "2") {
        return Some(Key::Num2.code());
    }
    if str_eq(name, "3") {
        return Some(Key::Num3.code());
    }
    if str_eq(name, "4") {
        return Some(Key::Num4.code());
    }
    if str_eq(name, "5") {
        return Some(Key::Num5.code());
    }
    if str_eq(name, "6") {
        return Some(Key::Num6.code());
    }
    if str_eq(name, "7") {
        return Some(Key::Num7.code());
    }
    if str_eq(name, "8") {
        return Some(Key::Num8.code());
    }
    if str_eq(name, "9") {
        return Some(Key::Num9.code());
    }
    if str_eq(name, "0") {
        return Some(Key::Num0.code());
    }
    if str_eq(name, "A") {
        return Some(Key::A.code());
    }
    if str_eq(name, "B") {
        return Some(Key::B.code());
    }
    if str_eq(name, "C") {
        return Some(Key::C.code());
    }
    if str_eq(name, "D") {
        return Some(Key::D.code());
    }
    if str_eq(name, "E") {
        return Some(Key::E.code());
    }
    if str_eq(name, "F") {
        return Some(Key::F.code());
    }
    if str_eq(name, "G") {
        return Some(Key::G.code());
    }
    if str_eq(name, "H") {
        return Some(Key::H.code());
    }
    if str_eq(name, "I") {
        return Some(Key::I.code());
    }
    if str_eq(name, "J") {
        return Some(Key::J.code());
    }
    if str_eq(name, "K") {
        return Some(Key::K.code());
    }
    if str_eq(name, "L") {
        return Some(Key::L.code());
    }
    if str_eq(name, "M") {
        return Some(Key::M.code());
    }
    if str_eq(name, "N") {
        return Some(Key::N.code());
    }
    if str_eq(name, "O") {
        return Some(Key::O.code());
    }
    if str_eq(name, "P") {
        return Some(Key::P.code());
    }
    if str_eq(name, "Q") {
        return Some(Key::Q.code());
    }
    if str_eq(name, "R") {
        return Some(Key::R.code());
    }
    if str_eq(name, "S") {
        return Some(Key::S.code());
    }
    if str_eq(name, "T") {
        return Some(Key::T.code());
    }
    if str_eq(name, "U") {
        return Some(Key::U.code());
    }
    if str_eq(name, "V") {
        return Some(Key::V.code());
    }
    if str_eq(name, "W") {
        return Some(Key::W.code());
    }
    if str_eq(name, "X") {
        return Some(Key::X.code());
    }
    if str_eq(name, "Y") {
        return Some(Key::Y.code());
    }
    if str_eq(name, "Z") {
        return Some(Key::Z.code());
    }
    None
}

/// Whether a code is a usage of the HID Keyboard/Keypad page that keyboards
/// report: 0x04..=0x65 or the modifiers 0xE0..=0xE7.
pub open spec fn is_keyboard_usage(code: u16) -> bool {
    (0x04 <= code <= 0x65) || (0xE0 <= code <= 0xE7)
}

proof fn lemma_keys_of_all_mapped(names: Seq<(u8, Seq<char>)>)
    requires
        forall|i: int| 0 <= i < names.len() ==> (#[trigger] crate::hid::spec_db_key_of(names[i].1)) is Some,
    ensures
        keys_of_names(names).len() == names.len(),
        forall|i: int|
            0 <= i < names.len() ==> #[trigger] keys_of_names(names)[i] == (
                names[i].0,
                crate::hid::spec_db_key_of(names[i].1)->Some_0,
            ),
        custom_of_names(names) == Seq::<(u8, u16)>::empty(),
    decreases names.len(),
{
    if names.len() > 0 {
        let d = names.drop_last();
        assert forall|i: int| 0 <= i < d.len() implies (#[trigger] crate::hid::spec_db_key_of(d[i].1)) is Some by {
            assert(d[i] == names[i]);
            assert(crate::hid::spec_db_key_of(names[i].1) is Some);
        }
        lemma_keys_of_all_mapped(d);
        assert(crate::hid::spec_db_key_of(names[names.len() - 1].1) is Some);
        assert forall|i: int| 0 <= i < names.len() implies #[trigger] keys_of_names(names)[i] == (
                names[i].0,
                crate::hid::spec_db_key_of(names[i].1)->Some_0,
            ) by {
            if i < d.len() {
                assert(d[i] == names[i]);
                assert(keys_of_names(d)[i] == keys_of_names(names)[i]);
            }
        }
    }
}

/// Every key has a code on the keyboard usage page.
pub proof fn lemma_codes_are_keyboard_usages(k: Key)
    ensures
        is_keyboard_usage(crate::hid::spec_code(k)),
{
}

/// The FUN60 Ultra table names 60 matrix positions, by strictly ascending
/// (so distinct) index, and every name stands for a key.
pub proof fn lemma_matrix_names_shape()
    ensures
        spec_matrix_names().len() == 60,
        forall|i: int, j: int|
            0 <= i < j < 60 ==> spec_matrix_names()[i].0 < spec_matrix_names()[j].0,
        forall|i: int|
            0 <= i < 60 ==> (#[trigger] crate::hid::spec_db_key_of(spec_matrix_names()[i].1)) is Some,
{
    let names = spec_matrix_names();
    crate::hid::lemma_db_name_round_trip(Key::Escape);
    assert(names[0] == (1u8, "Esc"@));
    crate::hid::lemma_db_name_round_trip(Key::Tab);
    assert(names[1] == (2u8, "Tab"@));
    crate::hid::lemma_db_name_round_trip(Key::CapsLock);
    assert(names[2] == (3u8, "CapsLock"@));
    crate::hid::lemma_db_name_round_trip(Key::LShift);
    assert(names[3] == (4u8, "LShift"@));
    crate::hid::lemma_db_name_round_trip(Key::LCtrl);
    assert(names[4] == (5u8, "LCtrl"@));
    crate::hid::lemma_db_name_round_trip(Key::Num1);
    assert(names[5] == (7u8, "1"@));
    crate::hid::lemma_db_name_round_trip(Key::Q);
    assert(names[6] == (8u8, "Q"@));
    crate::hid::lemma_db_name_round_trip(Key::A);
    assert(names[7] == (9u8, "A"@));
    crate::hid::lemma_db_name_round_trip(Key::Num2);
    assert(names[8] == (13u8, "2"@));
    crate::hid::lemma_db_name_round_trip(Key::W);
    assert(names[9] == (14u8, "W"@));
    crate::hid::lemma_db_name_round_trip(Key::S);
    assert(names[10] == (15u8, "S"@));
    crate::hid::lemma_db_name_round_trip(Key::Z);
    assert(names[11] == (16u8, "Z"@));
    crate::hid::lemma_db_name_round_trip(Key::LMeta);
    assert(names[12] == (17u8, "LMeta"@));
    crate::hid::lemma_db_name_round_trip(Key::Num3);
    assert(names[13] == (19u8, "3"@));
    crate::hid::lemma_db_name_round_trip(Key::E);
    assert(names[14] == (20u8, "E"@));
    crate::hid::lemma_db_name_round_trip(Key::D);
    assert(names[15] == (21u8, "D"@));
    crate::hid::lemma_db_name_round_trip(Key::X);
    assert(names[16] == (22u8, "X"@));
    crate::hid::lemma_db_name_round_trip(Key::LAlt);
    assert(names[17] == (23u8, "LAlt"@));
    crate::hid::lemma_db_name_round_trip(Key::Num4);
    assert(names[18] == (25u8, "4"@));
    crate::hid::lemma_db_name_round_trip(Key::R);
    assert(names[19] == (26u8, "R"@));
    crate::hid::lemma_db_name_round_trip(Key::F);
    assert(names[20] == (27u8, "F"@));
    crate::hid::lemma_db_name_round_trip(Key::C);
    assert(names[21] == (28u8, "C"@));
    crate::hid::lemma_db_name_round_trip(Key::Num5);
    assert(names[22] == (31u8, "5"@));
    crate::hid::lemma_db_name_round_trip(Key::T);
    assert(names[23] == (32u8, "T"@));
    crate::hid::lemma_db_name_round_trip(Key::G);
    assert(names[24] == (33u8, "G"@));
    crate::hid::lemma_db_name_round_trip(Key::V);
    assert(names[25] == (34u8, "V"@));
    crate::hid::lemma_db_name_round_trip(Key::Num6);
    assert(names[26] == (37u8, "6"@));
    crate::hid::lemma_db_name_round_trip(Key::Y);
    assert(names[27] == (38u8, "Y"@));
    crate::hid::lemma_db_name_round_trip(Key::H);
    assert(names[28] == (39u8, "H"@));
    crate::hid::lemma_db_name_round_trip(Key::B);
    assert(names[29] == (40u8, "B"@));
    crate::hid::lemma_db_name_round_trip(Key::Space);
    assert(names[30] == (41u8, "Space"@));
    crate::hid::lemma_db_name_round_trip(Key::Num7);
    assert(names[31] == (43u8, "7"@));
    crate::hid::lemma_db_name_round_trip(Key::U);
    assert(names[32] == (44u8, "U"@));
    crate::hid::lemma_db_name_round_trip(Key::J);
    assert(names[33] == (45u8, "J"@));
    crate::hid::lemma_db_name_round_trip(Key::N);
    assert(names[34] == (46u8, "N"@));
    crate::hid::lemma_db_name_round_trip(Key::Num8);
    assert(names[35] == (49u8, "8"@));
    crate::hid::lemma_db_name_round_trip(Key::I);
    assert(names[36] == (50u8, "I"@));
    crate::hid::lemma_db_name_round_trip(Key::K);
    assert(names[37] == (51u8, "K"@));
    crate::hid::lemma_db_name_round_trip(Key::M);
    assert(names[38] == (52u8, "M"@));
    crate::hid::lemma_db_name_round_trip(Key::Num9);
    assert(names[39] == (55u8, "9"@));
    crate::hid::lemma_db_name_round_trip(Key::O);
    assert(names[40] == (56u8, "O"@));
    crate::hid::lemma_db_name_round_trip(Key::L);
    assert(names[41] == (57u8, "L"@));
    crate::hid::lemma_db_name_round_trip(Key::Comma);
    assert(names[42] == (58u8, ","@));
    crate::hid::lemma_db_name_round_trip(Key::Num0);
    assert(names[43] == (61u8, "0"@));
    crate::hid::lemma_db_name_round_trip(Key::P);
    assert(names[44] == (62u8, "P"@));
    crate::hid::lemma_db_name_round_trip(Key::Semicolon);
    assert(names[45] == (63u8, ";"@));
    crate::hid::lemma_db_name_round_trip(Key::Dot);
    assert(names[46] == (64u8, "."@));
    crate::hid::lemma_db_name_round_trip(Key::RAlt);
    assert(names[47] == (65u8, "RAlt"@));
    crate::hid::lemma_db_name_round_trip(Key::Minus);
    assert(names[48] == (67u8, "-"@));
    crate::hid::lemma_db_name_round_trip(Key::LeftBracket);
    assert(names[49] == (68u8, "["@));
    crate::hid::lemma_db_name_round_trip(Key::Apostrophe);
    assert(names[50] == (69u8, "'"@));
    crate::hid::lemma_db_name_round_trip(Key::Slash);
    assert(names[51] == (70u8, "/"@));
    crate::hid::lemma_db_name_round_trip(Key::Equal);
    assert(names[52] == (73u8, "="@));
    crate::hid::lemma_db_name_round_trip(Key::RightBracket);
    assert(names[53] == (74u8, "]"@));
    crate::hid::lemma_db_name_round_trip(Key::RShift);
    assert(names[54] == (76u8, "RShift"@));
    crate::hid::lemma_db_name_round_trip(Key::Application);
    assert(names[55] == (77u8, "Application"@));
    crate::hid::lemma_db_name_round_trip(Key::Backspace);
    assert(names[56] == (79u8, "Backspace"@));
    crate::hid::lemma_db_name_round_trip(Key::Backslash);
    assert(names[57] == (80u8, "\\"@));
    crate::hid::lemma_db_name_round_trip(Key::Enter);
    assert(names[58] == (81u8, "Enter"@));
    crate::hid::lemma_db_name_round_trip(Key::RCtrl);
    assert(names[59] == (83u8, "RCtrl"@));
    assert forall|i: int| 0 <= i < 59 implies #[trigger] names[i].0 < names[i + 1].0 by {
        assert(i == 0 || i == 1 || i == 2 || i == 3 || i == 4 || i == 5 || i == 6 || i == 7 || i == 8 || i == 9 || i == 10 || i == 11 || i == 12 || i == 13 || i == 14 || i == 15 || i == 16 || i == 17 || i == 18 || i == 19 || i == 20 || i == 21 || i == 22 || i == 23 || i == 24 || i == 25 || i == 26 || i == 27 || i == 28 || i == 29 || i == 30 || i == 31 || i == 32 || i == 33 || i == 34 || i == 35 || i == 36 || i == 37 || i == 38 || i == 39 || i == 40 || i == 41 || i == 42 || i == 43 || i == 44 || i == 45 || i == 46 || i == 47 || i == 48 || i == 49 || i == 50 || i == 51 || i == 52 || i == 53 || i == 54 || i == 55 || i == 56 || i == 57 || i == 58 || i == 59);
    }
    assert forall|i: int, j: int| 0 <= i < j < 60 implies names[i].0 < names[j].0 by {
        lemma_ascending(names, i, j);
    }
    assert forall|i: int| 0 <= i < 60 implies (#[trigger] crate::hid::spec_db_key_of(names[i].1)) is Some by {
        assert(i == 0 || i == 1 || i == 2 || i == 3 || i == 4 || i == 5 || i == 6 || i == 7 || i == 8 || i == 9 || i == 10 || i == 11 || i == 12 || i == 13 || i == 14 || i == 15 || i == 16 || i == 17 || i == 18 || i == 19 || i == 20 || i == 21 || i == 22 || i == 23 || i == 24 || i == 25 || i == 26 || i == 27 || i == 28 || i == 29 || i == 30 || i == 31 || i == 32 || i == 33 || i == 34 || i == 35 || i == 36 || i == 37 || i == 38 || i == 39 || i == 40 || i == 41 || i == 42 || i == 43 || i == 44 || i == 45 || i == 46 || i == 47 || i == 48 || i == 49 || i == 50 || i == 51 || i == 52 || i == 53 || i == 54 || i == 55 || i == 56 || i == 57 || i == 58 || i == 59);
    }
}

proof fn lemma_ascending(s: Seq<(u8, Seq<char>)>, i: int, j: int)
    requires
        0 <= i < j < s.len(),
        forall|k: int| 0 <= k < s.len() - 1 ==> #[trigger] s[k].0 < s[k + 1].0,
    ensures
        s[i].0 < s[j].0,
    decreases j - i,
{
    if j > i + 1 {
        lemma_ascending(s, i, j - 1);
    }
    assert(s[j - 1].0 < s[j].0);
}

/// The HID table has one entry per named matrix position, in table order,
/// none in the custom-key space, and every code is a keyboard usage.
pub proof fn lemma_matrix_to_hid_is_keyboard()
    ensures
        spec_matrix_to_hid().len() == 60,
        forall|i: int| 0 <= i < 60 ==> #[trigger] spec_matrix_to_hid()[i].0 == spec_matrix_names()[i].0,
        forall|i: int| 0 <= i < 60 ==> is_keyboard_usage(#[trigger] spec_matrix_to_hid()[i].1),
{
    lemma_matrix_names_shape();
    let names = spec_matrix_names();
    lemma_keys_of_all_mapped(names);
    let ks = keys_of_names(names);
    assert(spec_matrix_to_hid() =~= codes_of_keys(ks));
    assert forall|i: int| 0 <= i < 60 implies is_keyboard_usage(#[trigger] spec_matrix_to_hid()[i].1) by {
        lemma_codes_are_keyboard_usages(ks[i].1);
    }
}

/// The legacy name table agrees with the key enum: every key's DB name
/// names that key's code.
pub proof fn lemma_hid_code_for_agrees(k: Key)
    ensures
        crate::hid::spec_db_name(k) matches Some(n) ==> spec_hid_code_for(n) == Some(
            crate::hid::spec_code(k),
        ),
{
    crate::hid::lemma_name_literals();
}

/// The table position whose code is `c` in the FUN60 Ultra HID table.
spec fn position_of_code(c: u16) -> int {
    if c == 0x29 {
        0
    } else if c == 0x2B {
        1
    } else if c == 0x39 {
        2
    } else if c == 0xE1 {
        3
    } else if c == 0xE0 {
        4
    } else if c == 0x1E {
        5
    } else if c == 0x14 {
        6
    } else if c == 0x04 {
        7
    } else if c == 0x1F {
        8
    } else if c == 0x1A {
        9
    } else if c == 0x16 {
        10
    } else if c == 0x1D {
        11
    } else if c == 0xE3 {
        12
    } else if c == 0x20 {
        13
    } else if c == 0x08 {
        14
    } else if c == 0x07 {
        15
    } else if c == 0x1B {
        16
    } else if c == 0xE2 {
        17
    } else if c == 0x21 {
        18
    } else if c == 0x15 {
        19
    } else if c == 0x09 {
        20
    } else if c == 0x06 {
        21
    } else if c == 0x22 {
        22
    } else if c == 0x17 {
        23
    } else if c == 0x0A {
        24
    } else if c == 0x19 {
        25
    } else if c == 0x23 {
        26
    } else if c == 0x1C {
        27
    } else if c == 0x0B {
        28
    } else if c == 0x05 {
        29
    } else if c == 0x2C {
        30
    } else if c == 0x24 {
        31
    } else if c == 0x18 {
        32
    } else if c == 0x0D {
        33
    } else if c == 0x11 {
        34
    } else if c == 0x25 {
        35
    } else if c == 0x0C {
        36
    } else if c == 0x0E {
        37
    } else if c == 0x10 {
        38
    } else if c == 0x26 {
        39
    } else if c == 0x12 {
        40
    } else if c == 0x0F {
        41
    } else if c == 0x36 {
        42
    } else if c == 0x27 {
        43
    } else if c == 0x13 {
        44
    } else if c == 0x33 {
        45
    } else if c == 0x37 {
        46
    } else if c == 0xE6 {
        47
    } else if c == 0x2D {
        48
    } else if c == 0x2F {
        49
    } else if c == 0x34 {
        50
    } else if c == 0x38 {
        51
    } else if c == 0x2E {
        52
    } else if c == 0x30 {
        53
    } else if c == 0xE5 {
        54
    } else if c == 0x65 {
        55
    } else if c == 0x2A {
        56
    } else if c == 0x31 {
        57
    } else if c == 0x28 {
        58
    } else if c == 0xE4 {
        59
    } else {
        -1
    }
}

/// The FUN60 Ultra HID table gives every matrix position its own code, so
/// a code names at most one position.
#[verifier::rlimit(60)]
pub proof fn lemma_matrix_to_hid_codes_distinct()
    ensures
        forall|i: int, j: int|
            0 <= i < 60 && 0 <= j < 60 && i != j ==> spec_matrix_to_hid()[i].1 != spec_matrix_to_hid()[j].1,
        forall|i: int, j: int|
            0 <= i < 60 && 0 <= j < 60 && i != j ==> spec_matrix_to_hid()[i].0 != spec_matrix_to_hid()[j].0,
{
    lemma_matrix_to_hid_is_keyboard();
    lemma_matrix_names_shape();
    let names = spec_matrix_names();
    lemma_keys_of_all_mapped(names);
    let hid = spec_matrix_to_hid();
    assert(hid =~= codes_of_keys(keys_of_names(names)));
    crate::hid::lemma_db_name_round_trip(Key::Escape);
    assert(names[0] == (1u8, "Esc"@));
    assert(hid[0].1 == 0x29);
    assert(position_of_code(hid[0].1) == 0);
    crate::hid::lemma_db_name_round_trip(Key::Tab);
    assert(names[1] == (2u8, "Tab"@));
    assert(hid[1].1 == 0x2B);
    assert(position_of_code(hid[1].1) == 1);
    crate::hid::lemma_db_name_round_trip(Key::CapsLock);
    assert(names[2] == (3u8, "CapsLock"@));
    assert(hid[2].1 == 0x39);
    assert(position_of_code(hid[2].1) == 2);
    crate::hid::lemma_db_name_round_trip(Key::LShift);
    assert(names[3] == (4u8, "LShift"@));
    assert(hid[3].1 == 0xE1);
    assert(position_of_code(hid[3].1) == 3);
    crate::hid::lemma_db_name_round_trip(Key::LCtrl);
    assert(names[4] == (5u8, "LCtrl"@));
    assert(hid[4].1 == 0xE0);
    assert(position_of_code(hid[4].1) == 4);
    crate::hid::lemma_db_name_round_trip(Key::Num1);
    assert(names[5] == (7u8, "1"@));
    assert(hid[5].1 == 0x1E);
    assert(position_of_code(hid[5].1) == 5);
    crate::hid::lemma_db_name_round_trip(Key::Q);
    assert(names[6] == (8u8, "Q"@));
    assert(hid[6].1 == 0x14);
    assert(position_of_code(hid[6].1) == 6);
    crate::hid::lemma_db_name_round_trip(Key::A);
    assert(names[7] == (9u8, "A"@));
    assert(hid[7].1 == 0x04);
    assert(position_of_code(hid[7].1) == 7);
    crate::hid::lemma_db_name_round_trip(Key::Num2);
    assert(names[8] == (13u8, "2"@));
    assert(hid[8].1 == 0x1F);
    assert(position_of_code(hid[8].1) == 8);
    crate::hid::lemma_db_name_round_trip(Key::W);
    assert(names[9] == (14u8, "W"@));
    assert(hid[9].1 == 0x1A);
    assert(position_of_code(hid[9].1) == 9);
    crate::hid::lemma_db_name_round_trip(Key::S);
    assert(names[10] == (15u8, "S"@));
    assert(hid[10].1 == 0x16);
    assert(position_of_code(hid[10].1) == 10);
    crate::hid::lemma_db_name_round_trip(Key::Z);
    assert(names[11] == (16u8, "Z"@));
    assert(hid[11].1 == 0x1D);
    assert(position_of_code(hid[11].1) == 11);
    crate::hid::lemma_db_name_round_trip(Key::LMeta);
    assert(names[12] == (17u8, "LMeta"@));
    assert(hid[12].1 == 0xE3);
    assert(position_of_code(hid[12].1) == 12);
    crate::hid::lemma_db_name_round_trip(Key::Num3);
    assert(names[13] == (19u8, "3"@));
    assert(hid[13].1 == 0x20);
    assert(position_of_code(hid[13].1) == 13);
    crate::hid::lemma_db_name_round_trip(Key::E);
    assert(names[14] == (20u8, "E"@));
    assert(hid[14].1 == 0x08);
    assert(position_of_code(hid[14].1) == 14);
    crate::hid::lemma_db_name_round_trip(Key::D);
    assert(names[15] == (21u8, "D"@));
    assert(hid[15].1 == 0x07);
    assert(position_of_code(hid[15].1) == 15);
    crate::hid::lemma_db_name_round_trip(Key::X);
    assert(names[16] == (22u8, "X"@));
    assert(hid[16].1 == 0x1B);
    assert(position_of_code(hid[16].1) == 16);
    crate::hid::lemma_db_name_round_trip(Key::LAlt);
    assert(names[17] == (23u8, "LAlt"@));
    assert(hid[17].1 == 0xE2);
    assert(position_of_code(hid[17].1) == 17);
    crate::hid::lemma_db_name_round_trip(Key::Num4);
    assert(names[18] == (25u8, "4"@));
    assert(hid[18].1 == 0x21);
    assert(position_of_code(hid[18].1) == 18);
    crate::hid::lemma_db_name_round_trip(Key::R);
    assert(names[19] == (26u8, "R"@));
    assert(hid[19].1 == 0x15);
    assert(position_of_code(hid[19].1) == 19);
    crate::hid::lemma_db_name_round_trip(Key::F);
    assert(names[20] == (27u8, "F"@));
    assert(hid[20].1 == 0x09);
    assert(position_of_code(hid[20].1) == 20);
    crate::hid::lemma_db_name_round_trip(Key::C);
    assert(names[21] == (28u8, "C"@));
    assert(hid[21].1 == 0x06);
    assert(position_of_code(hid[21].1) == 21);
    crate::hid::lemma_db_name_round_trip(Key::Num5);
    assert(names[22] == (31u8, "5"@));
    assert(hid[22].1 == 0x22);
    assert(position_of_code(hid[22].1) == 22);
    crate::hid::lemma_db_name_round_trip(Key::T);
    assert(names[23] == (32u8, "T"@));
    assert(hid[23].1 == 0x17);
    assert(position_of_code(hid[23].1) == 23);
    crate::hid::lemma_db_name_round_trip(Key::G);
    assert(names[24] == (33u8, "G"@));
    assert(hid[24].1 == 0x0A);
    assert(position_of_code(hid[24].1) == 24);
    crate::hid::lemma_db_name_round_trip(Key::V);
    assert(names[25] == (34u8, "V"@));
    assert(hid[25].1 == 0x19);
    assert(position_of_code(hid[25].1) == 25);
    crate::hid::lemma_db_name_round_trip(Key::Num6);
    assert(names[26] == (37u8, "6"@));
    assert(hid[26].1 == 0x23);
    assert(position_of_code(hid[26].1) == 26);
    crate::hid::lemma_db_name_round_trip(Key::Y);
    assert(names[27] == (38u8, "Y"@));
    assert(hid[27].1 == 0x1C);
    assert(position_of_code(hid[27].1) == 27);
    crate::hid::lemma_db_name_round_trip(Key::H);
    assert(names[28] == (39u8, "H"@));
    assert(hid[28].1 == 0x0B);
    assert(position_of_code(hid[28].1) == 28);
    crate::hid::lemma_db_name_round_trip(Key::B);
    assert(names[29] == (40u8, "B"@));
    assert(hid[29].1 == 0x05);
    assert(position_of_code(hid[29].1) == 29);
    crate::hid::lemma_db_name_round_trip(Key::Space);
    assert(names[30] == (41u8, "Space"@));
    assert(hid[30].1 == 0x2C);
    assert(position_of_code(hid[30].1) == 30);
    crate::hid::lemma_db_name_round_trip(Key::Num7);
    assert(names[31] == (43u8, "7"@));
    assert(hid[31].1 == 0x24);
    assert(position_of_code(hid[31].1) == 31);
    crate::hid::lemma_db_name_round_trip(Key::U);
    assert(names[32] == (44u8, "U"@));
    assert(hid[32].1 == 0x18);
    assert(position_of_code(hid[32].1) == 32);
    crate::hid::lemma_db_name_round_trip(Key::J);
    assert(names[33] == (45u8, "J"@));
    assert(hid[33].1 == 0x0D);
    assert(position_of_code(hid[33].1) == 33);
    crate::hid::lemma_db_name_round_trip(Key::N);
    assert(names[34] == (46u8, "N"@));
    assert(hid[34].1 == 0x11);
    assert(position_of_code(hid[34].1) == 34);
    crate::hid::lemma_db_name_round_trip(Key::Num8);
    assert(names[35] == (49u8, "8"@));
    assert(hid[35].1 == 0x25);
    assert(position_of_code(hid[35].1) == 35);
    crate::hid::lemma_db_name_round_trip(Key::I);
    assert(names[36] == (50u8, "I"@));
    assert(hid[36].1 == 0x0C);
    assert(position_of_code(hid[36].1) == 36);
    crate::hid::lemma_db_name_round_trip(Key::K);
    assert(names[37] == (51u8, "K"@));
    assert(hid[37].1 == 0x0E);
    assert(position_of_code(hid[37].1) == 37);
    crate::hid::lemma_db_name_round_trip(Key::M);
    assert(names[38] == (52u8, "M"@));
    assert(hid[38].1 == 0x10);
    assert(position_of_code(hid[38].1) == 38);
    crate::hid::lemma_db_name_round_trip(Key::Num9);
    assert(names[39] == (55u8, "9"@));
    assert(hid[39].1 == 0x26);
    assert(position_of_code(hid[39].1) == 39);
    crate::hid::lemma_db_name_round_trip(Key::O);
    assert(names[40] == (56u8, "O"@));
    assert(hid[40].1 == 0x12);
    assert(position_of_code(hid[40].1) == 40);
    crate::hid::lemma_db_name_round_trip(Key::L);
    assert(names[41] == (57u8, "L"@));
    assert(hid[41].1 == 0x0F);
    assert(position_of_code(hid[41].1) == 41);
    crate::hid::lemma_db_name_round_trip(Key::Comma);
    assert(names[42] == (58u8, ","@));
    assert(hid[42].1 == 0x36);
    assert(position_of_code(hid[42].1) == 42);
    crate::hid::lemma_db_name_round_trip(Key::Num0);
    assert(names[43] == (61u8, "0"@));
    assert(hid[43].1 == 0x27);
    assert(position_of_code(hid[43].1) == 43);
    crate::hid::lemma_db_name_round_trip(Key::P);
    assert(names[44] == (62u8, "P"@));
    assert(hid[44].1 == 0x13);
    assert(position_of_code(hid[44].1) == 44);
    crate::hid::lemma_db_name_round_trip(Key::Semicolon);
    assert(names[45] == (63u8, ";"@));
    assert(hid[45].1 == 0x33);
    assert(position_of_code(hid[45].1) == 45);
    crate::hid::lemma_db_name_round_trip(Key::Dot);
    assert(names[46] == (64u8, "."@));
    assert(hid[46].1 == 0x37);
    assert(position_of_code(hid[46].1) == 46);
    crate::hid::lemma_db_name_round_trip(Key::RAlt);
    assert(names[47] == (65u8, "RAlt"@));
    assert(hid[47].1 == 0xE6);
    assert(position_of_code(hid[47].1) == 47);
    crate::hid::lemma_db_name_round_trip(Key::Minus);
    assert(names[48] == (67u8, "-"@));
    assert(hid[48].1 == 0x2D);
    assert(position_of_code(hid[48].1) == 48);
    crate::hid::lemma_db_name_round_trip(Key::LeftBracket);
    assert(names[49] == (68u8, "["@));
    assert(hid[49].1 == 0x2F);
    assert(position_of_code(hid[49].1) == 49);
    crate::hid::lemma_db_name_round_trip(Key::Apostrophe);
    assert(names[50] == (69u8, "'"@));
    assert(hid[50].1 == 0x34);
    assert(position_of_code(hid[50].1) == 50);
    crate::hid::lemma_db_name_round_trip(Key::Slash);
    assert(names[51] == (70u8, "/"@));
    assert(hid[51].1 == 0x38);
    assert(position_of_code(hid[51].1) == 51);
    crate::hid::lemma_db_name_round_trip(Key::Equal);
    assert(names[52] == (73u8, "="@));
    assert(hid[52].1 == 0x2E);
    assert(position_of_code(hid[52].1) == 52);
    crate::hid::lemma_db_name_round_trip(Key::RightBracket);
    assert(names[53] == (74u8, "]"@));
    assert(hid[53].1 == 0x30);
    assert(position_of_code(hid[53].1) == 53);
    crate::hid::lemma_db_name_round_trip(Key::RShift);
    assert(names[54] == (76u8, "RShift"@));
    assert(hid[54].1 == 0xE5);
    assert(position_of_code(hid[54].1) == 54);
    crate::hid::lemma_db_name_round_trip(Key::Application);
    assert(names[55] == (77u8, "Application"@));
    assert(hid[55].1 == 0x65);
    assert(position_of_code(hid[55].1) == 55);
    crate::hid::lemma_db_name_round_trip(Key::Backspace);
    assert(names[56] == (79u8, "Backspace"@));
    assert(hid[56].1 == 0x2A);
    assert(position_of_code(hid[56].1) == 56);
    crate::hid::lemma_db_name_round_trip(Key::Backslash);
    assert(names[57] == (80u8, "\\"@));
    assert(hid[57].1 == 0x31);
    assert(position_of_code(hid[57].1) == 57);
    crate::hid::lemma_db_name_round_trip(Key::Enter);
    assert(names[58] == (81u8, "Enter"@));
    assert(hid[58].1 == 0x28);
    assert(position_of_code(hid[58].1) == 58);
    crate::hid::lemma_db_name_round_trip(Key::RCtrl);
    assert(names[59] == (83u8, "RCtrl"@));
    assert(hid[59].1 == 0xE4);
    assert(position_of_code(hid[59].1) == 59);
    assert forall|i: int| 0 <= i < 60 implies position_of_code(#[trigger] hid[i].1) == i by {
        assert(i == 0 || i == 1 || i == 2 || i == 3 || i == 4 || i == 5 || i == 6 || i == 7 || i == 8 || i == 9 || i == 10 || i == 11 || i == 12 || i == 13 || i == 14 || i == 15 || i == 16 || i == 17 || i == 18 || i == 19 || i == 20 || i == 21 || i == 22 || i == 23 || i == 24 || i == 25 || i == 26 || i == 27 || i == 28 || i == 29 || i == 30 || i == 31 || i == 32 || i == 33 || i == 34 || i == 35 || i == 36 || i == 37 || i == 38 || i == 39 || i == 40 || i == 41 || i == 42 || i == 43 || i == 44 || i == 45 || i == 46 || i == 47 || i == 48 || i == 49 || i == 50 || i == 51 || i == 52 || i == 53 || i == 54 || i == 55 || i == 56 || i == 57 || i == 58 || i == 59);
    }
    assert forall|i: int, j: int| 0 <= i < 60 && 0 <= j < 60 && i != j implies hid[i].0 != hid[j].0 by {
        if i < j {
            assert(names[i].0 < names[j].0);
        } else {
            assert(names[j].0 < names[i].0);
        }
    }
}

/// The DB names are exactly the names of the FUN60 Ultra table: every key's
/// DB name labels a table position, every table name is some key's DB name,
/// and no two keys share one.
#[verifier::rlimit(80)]
pub proof fn lemma_db_names_are_table_names()
    ensures
        forall|k: Key|
            (#[trigger] crate::hid::spec_db_name(k)) is Some ==> exists|i: int|
                0 <= i < 60 && spec_matrix_names()[i].1 == crate::hid::spec_db_name(k)->Some_0,
        forall|i: int|
            0 <= i < 60 ==> exists|k: Key| crate::hid::spec_db_name(k) == Some(#[trigger] spec_matrix_names()[i].1),
        forall|k1: Key, k2: Key|
            (#[trigger] crate::hid::spec_db_name(k1)) is Some && crate::hid::spec_db_name(k1)
                == #[trigger] crate::hid::spec_db_name(k2) ==> k1 == k2,
{
    let names = spec_matrix_names();
    lemma_matrix_names_shape();
    assert forall|k: Key|
        (#[trigger] crate::hid::spec_db_name(k)) is Some implies exists|i: int|
            0 <= i < 60 && names[i].1 == crate::hid::spec_db_name(k)->Some_0 by {
        match k {
            Key::Escape => {
                assert(names[0].1 == "Esc"@);
            },
            Key::Tab => {
                assert(names[1].1 == "Tab"@);
            },
            Key::CapsLock => {
                assert(names[2].1 == "CapsLock"@);
            },
            Key::LShift => {
                assert(names[3].1 == "LShift"@);
            },
            Key::LCtrl => {
                assert(names[4].1 == "LCtrl"@);
            },
            Key::Num1 => {
                assert(names[5].1 == "1"@);
            },
            Key::Q => {
                assert(names[6].1 == "Q"@);
            },
            Key::A => {
                assert(names[7].1 == "A"@);
            },
            Key::Num2 => {
                assert(names[8].1 == "2"@);
            },
            Key::W => {
                assert(names[9].1 == "W"@);
            },
            Key::S => {
                assert(names[10].1 == "S"@);
            },
            Key::Z => {
                assert(names[11].1 == "Z"@);
            },
            Key::LMeta => {
                assert(names[12].1 == "LMeta"@);
            },
            Key::Num3 => {
                assert(names[13].1 == "3"@);
            },
            Key::E => {
                assert(names[14].1 == "E"@);
            },
            Key::D => {
                assert(names[15].1 == "D"@);
            },
            Key::X => {
                assert(names[16].1 == "X"@);
            },
            Key::LAlt => {
                assert(names[17].1 == "LAlt"@);
            },
            Key::Num4 => {
                assert(names[18].1 == "4"@);
            },
            Key::R => {
                assert(names[19].1 == "R"@);
            },
            Key::F => {
                assert(names[20].1 == "F"@);
            },
            Key::C => {
                assert(names[21].1 == "C"@);
            },
            Key::Num5 => {
                assert(names[22].1 == "5"@);
            },
            Key::T => {
                assert(names[23].1 == "T"@);
            },
            Key::G => {
                assert(names[24].1 == "G"@);
            },
            Key::V => {
                assert(names[25].1 == "V"@);
            },
            Key::Num6 => {
                assert(names[26].1 == "6"@);
            },
            Key::Y => {
                assert(names[27].1 == "Y"@);
            },
            Key::H => {
                assert(names[28].1 == "H"@);
            },
            Key::B => {
                assert(names[29].1 == "B"@);
            },
            Key::Space => {
                assert(names[30].1 == "Space"@);
            },
            Key::Num7 => {
                assert(names[31].1 == "7"@);
            },
            Key::U => {
                assert(names[32].1 == "U"@);
            },
            Key::J => {
                assert(names[33].1 == "J"@);
            },
            Key::N => {
                assert(names[34].1 == "N"@);
            },
            Key::Num8 => {
                assert(names[35].1 == "8"@);
            },
            Key::I => {
                assert(names[36].1 == "I"@);
            },
            Key::K => {
                assert(names[37].1 == "K"@);
            },
            Key::M => {
                assert(names[38].1 == "M"@);
            },
            Key::Num9 => {
                assert(names[39].1 == "9"@);
            },
            Key::O => {
                assert(names[40].1 == "O"@);
            },
            Key::L => {
                assert(names[41].1 == "L"@);
            },
            Key::Comma => {
                assert(names[42].1 == ","@);
            },
            Key::Num0 => {
                assert(names[43].1 == "0"@);
            },
            Key::P => {
                assert(names[44].1 == "P"@);
            },
            Key::Semicolon => {
                assert(names[45].1 == ";"@);
            },
            Key::Dot => {
                assert(names[46].1 == "."@);
            },
            Key::RAlt => {
                assert(names[47].1 == "RAlt"@);
            },
            Key::Minus => {
                assert(names[48].1 == "-"@);
            },
            Key::LeftBracket => {
                assert(names[49].1 == "["@);
            },
            Key::Apostrophe => {
                assert(names[50].1 == "'"@);
            },
            Key::Slash => {
                assert(names[51].1 == "/"@);
            },
            Key::Equal => {
                assert(names[52].1 == "="@);
            },
            Key::RightBracket => {
                assert(names[53].1 == "]"@);
            },
            Key::RShift => {
                assert(names[54].1 == "RShift"@);
            },
            Key::Application => {
                assert(names[55].1 == "Application"@);
            },
            Key::Backspace => {
                assert(names[56].1 == "Backspace"@);
            },
            Key::Backslash => {
                assert(names[57].1 == "\\"@);
            },
            Key::Enter => {
                assert(names[58].1 == "Enter"@);
            },
            Key::RCtrl => {
                assert(names[59].1 == "RCtrl"@);
            },
            _ => {},
        }
    }
    assert forall|i: int| 0 <= i < 60 implies exists|k: Key| crate::hid::spec_db_name(k) == Some(#[trigger] names[i].1) by {
        let k = crate::hid::spec_db_key_of(names[i].1)->Some_0;
        crate::hid::lemma_db_key_of_inverse(names[i].1);
        assert(crate::hid::spec_db_name(k) == Some(names[i].1));
    }
    assert forall|k1: Key, k2: Key|
        (#[trigger] crate::hid::spec_db_name(k1)) is Some && crate::hid::spec_db_name(k1)
            == #[trigger] crate::hid::spec_db_name(k2) implies k1 == k2 by {
        crate::hid::lemma_db_names_unique(k1, k2);
    }
}

/// Where each key sits on the FUN60 Ultra: the matrix index the depth
/// server reports for it (DB layout of device 2307), per key.
pub open spec fn fun60_position(k: Key) -> Option<u8> {
    match k {
        Key::Escape => Some(1u8),
        Key::Tab => Some(2u8),
        Key::CapsLock => Some(3u8),
        Key::LShift => Some(4u8),
        Key::LCtrl => Some(5u8),
        Key::Num1 => Some(7u8),
        Key::Q => Some(8u8),
        Key::A => Some(9u8),
        Key::Num2 => Some(13u8),
        Key::W => Some(14u8),
        Key::S => Some(15u8),
        Key::Z => Some(16u8),
        Key::LMeta => Some(17u8),
        Key::Num3 => Some(19u8),
        Key::E => Some(20u8),
        Key::D => Some(21u8),
        Key::X => Some(22u8),
        Key::LAlt => Some(23u8),
        Key::Num4 => Some(25u8),
        Key::R => Some(26u8),
        Key::F => Some(27u8),
        Key::C => Some(28u8),
        Key::Num5 => Some(31u8),
        Key::T => Some(32u8),
        Key::G => Some(33u8),
        Key::V => Some(34u8),
        Key::Num6 => Some(37u8),
        Key::Y => Some(38u8),
        Key::H => Some(39u8),
        Key::B => Some(40u8),
        Key::Space => Some(41u8),
        Key::Num7 => Some(43u8),
        Key::U => Some(44u8),
        Key::J => Some(45u8),
        Key::N => Some(46u8),
        Key::Num8 => Some(49u8),
        Key::I => Some(50u8),
        Key::K => Some(51u8),
        Key::M => Some(52u8),
        Key::Num9 => Some(55u8),
        Key::O => Some(56u8),
        Key::L => Some(57u8),
        Key::Comma => Some(58u8),
        Key::Num0 => Some(61u8),
        Key::P => Some(62u8),
        Key::Semicolon => Some(63u8),
        Key::Dot => Some(64u8),
        Key::RAlt => Some(65u8),
        Key::Minus => Some(67u8),
        Key::LeftBracket => Some(68u8),
        Key::Apostrophe => Some(69u8),
        Key::Slash => Some(70u8),
        Key::Equal => Some(73u8),
        Key::RightBracket => Some(74u8),
        Key::RShift => Some(76u8),
        Key::Application => Some(77u8),
        Key::Backspace => Some(79u8),
        Key::Backslash => Some(80u8),
        Key::Enter => Some(81u8),
        Key::RCtrl => Some(83u8),
        _ => None,
    }
}

/// Every entry of the matrix-name table sits at its key's physical
/// position: the name stands for a key whose FUN60 position is the entry's
/// matrix index; and every key on the layout has an entry.
#[verifier::rlimit(60)]
proof fn lemma_matrix_names_keys_at_positions()
    ensures
        forall|i: int|
            0 <= i < spec_matrix_names().len() ==> (#[trigger] crate::hid::spec_db_key_of(
                spec_matrix_names()[i].1,
            )) is Some && fun60_position(
                crate::hid::spec_db_key_of(spec_matrix_names()[i].1)->Some_0,
            ) == Some(spec_matrix_names()[i].0),
{
    let names = spec_matrix_names();
    lemma_matrix_names_shape();
    crate::hid::lemma_db_name_round_trip(Key::Escape);
    assert(names[0] == (1u8, "Esc"@));
    crate::hid::lemma_db_name_round_trip(Key::Tab);
    assert(names[1] == (2u8, "Tab"@));
    crate::hid::lemma_db_name_round_trip(Key::CapsLock);
    assert(names[2] == (3u8, "CapsLock"@));
    crate::hid::lemma_db_name_round_trip(Key::LShift);
    assert(names[3] == (4u8, "LShift"@));
    crate::hid::lemma_db_name_round_trip(Key::LCtrl);
    assert(names[4] == (5u8, "LCtrl"@));
    crate::hid::lemma_db_name_round_trip(Key::Num1);
    assert(names[5] == (7u8, "1"@));
    crate::hid::lemma_db_name_round_trip(Key::Q);
    assert(names[6] == (8u8, "Q"@));
    crate::hid::lemma_db_name_round_trip(Key::A);
    assert(names[7] == (9u8, "A"@));
    crate::hid::lemma_db_name_round_trip(Key::Num2);
    assert(names[8] == (13u8, "2"@));
    crate::hid::lemma_db_name_round_trip(Key::W);
    assert(names[9] == (14u8, "W"@));
    crate::hid::lemma_db_name_round_trip(Key::S);
    assert(names[10] == (15u8, "S"@));
    crate::hid::lemma_db_name_round_trip(Key::Z);
    assert(names[11] == (16u8, "Z"@));
    crate::hid::lemma_db_name_round_trip(Key::LMeta);
    assert(names[12] == (17u8, "LMeta"@));
    crate::hid::lemma_db_name_round_trip(Key::Num3);
    assert(names[13] == (19u8, "3"@));
    crate::hid::lemma_db_name_round_trip(Key::E);
    assert(names[14] == (20u8, "E"@));
    crate::hid::lemma_db_name_round_trip(Key::D);
    assert(names[15] == (21u8, "D"@));
    crate::hid::lemma_db_name_round_trip(Key::X);
    assert(names[16] == (22u8, "X"@));
    crate::hid::lemma_db_name_round_trip(Key::LAlt);
    assert(names[17] == (23u8, "LAlt"@));
    crate::hid::lemma_db_name_round_trip(Key::Num4);
    assert(names[18] == (25u8, "4"@));
    crate::hid::lemma_db_name_round_trip(Key::R);
    assert(names[19] == (26u8, "R"@));
    crate::hid::lemma_db_name_round_trip(Key::F);
    assert(names[20] == (27u8, "F"@));
    crate::hid::lemma_db_name_round_trip(Key::C);
    assert(names[21] == (28u8, "C"@));
    crate::hid::lemma_db_name_round_trip(Key::Num5);
    assert(names[22] == (31u8, "5"@));
    crate::hid::lemma_db_name_round_trip(Key::T);
    assert(names[23] == (32u8, "T"@));
    crate::hid::lemma_db_name_round_trip(Key::G);
    assert(names[24] == (33u8, "G"@));
    crate::hid::lemma_db_name_round_trip(Key::V);
    assert(names[25] == (34u8, "V"@));
    crate::hid::lemma_db_name_round_trip(Key::Num6);
    assert(names[26] == (37u8, "6"@));
    crate::hid::lemma_db_name_round_trip(Key::Y);
    assert(names[27] == (38u8, "Y"@));
    crate::hid::lemma_db_name_round_trip(Key::H);
    assert(names[28] == (39u8, "H"@));
    crate::hid::lemma_db_name_round_trip(Key::B);
    assert(names[29] == (40u8, "B"@));
    crate::hid::lemma_db_name_round_trip(Key::Space);
    assert(names[30] == (41u8, "Space"@));
    crate::hid::lemma_db_name_round_trip(Key::Num7);
    assert(names[31] == (43u8, "7"@));
    crate::hid::lemma_db_name_round_trip(Key::U);
    assert(names[32] == (44u8, "U"@));
    crate::hid::lemma_db_name_round_trip(Key::J);
    assert(names[33] == (45u8, "J"@));
    crate::hid::lemma_db_name_round_trip(Key::N);
    assert(names[34] == (46u8, "N"@));
    crate::hid::lemma_db_name_round_trip(Key::Num8);
    assert(names[35] == (49u8, "8"@));
    crate::hid::lemma_db_name_round_trip(Key::I);
    assert(names[36] == (50u8, "I"@));
    crate::hid::lemma_db_name_round_trip(Key::K);
    assert(names[37] == (51u8, "K"@));
    crate::hid::lemma_db_name_round_trip(Key::M);
    assert(names[38] == (52u8, "M"@));
    crate::hid::lemma_db_name_round_trip(Key::Num9);
    assert(names[39] == (55u8, "9"@));
    crate::hid::lemma_db_name_round_trip(Key::O);
    assert(names[40] == (56u8, "O"@));
    crate::hid::lemma_db_name_round_trip(Key::L);
    assert(names[41] == (57u8, "L"@));
    crate::hid::lemma_db_name_round_trip(Key::Comma);
    assert(names[42] == (58u8, ","@));
    crate::hid::lemma_db_name_round_trip(Key::Num0);
    assert(names[43] == (61u8, "0"@));
    crate::hid::lemma_db_name_round_trip(Key::P);
    assert(names[44] == (62u8, "P"@));
    crate::hid::lemma_db_name_round_trip(Key::Semicolon);
    assert(names[45] == (63u8, ";"@));
    crate::hid::lemma_db_name_round_trip(Key::Dot);
    assert(names[46] == (64u8, "."@));
    crate::hid::lemma_db_name_round_trip(Key::RAlt);
    assert(names[47] == (65u8, "RAlt"@));
    crate::hid::lemma_db_name_round_trip(Key::Minus);
    assert(names[48] == (67u8, "-"@));
    crate::hid::lemma_db_name_round_trip(Key::LeftBracket);
    assert(names[49] == (68u8, "["@));
    crate::hid::lemma_db_name_round_trip(Key::Apostrophe);
    assert(names[50] == (69u8, "'"@));
    crate::hid::lemma_db_name_round_trip(Key::Slash);
    assert(names[51] == (70u8, "/"@));
    crate::hid::lemma_db_name_round_trip(Key::Equal);
    assert(names[52] == (73u8, "="@));
    crate::hid::lemma_db_name_round_trip(Key::RightBracket);
    assert(names[53] == (74u8, "]"@));
    crate::hid::lemma_db_name_round_trip(Key::RShift);
    assert(names[54] == (76u8, "RShift"@));
    crate::hid::lemma_db_name_round_trip(Key::Application);
    assert(names[55] == (77u8, "Application"@));
    crate::hid::lemma_db_name_round_trip(Key::Backspace);
    assert(names[56] == (79u8, "Backspace"@));
    crate::hid::lemma_db_name_round_trip(Key::Backslash);
    assert(names[57] == (80u8, "\\"@));
    crate::hid::lemma_db_name_round_trip(Key::Enter);
    assert(names[58] == (81u8, "Enter"@));
    crate::hid::lemma_db_name_round_trip(Key::RCtrl);
    assert(names[59] == (83u8, "RCtrl"@));
    assert forall|i: int| 0 <= i < names.len() implies (#[trigger] crate::hid::spec_db_key_of(
        names[i].1,
    )) is Some && fun60_position(crate::hid::spec_db_key_of(names[i].1)->Some_0) == Some(
        names[i].0,
    ) by {
        assert(i == 0 || i == 1 || i == 2 || i == 3 || i == 4 || i == 5 || i == 6 || i == 7 || i == 8 || i == 9 || i == 10 || i == 11 || i == 12 || i == 13 || i == 14 || i == 15 || i == 16 || i == 17 || i == 18 || i == 19 || i == 20 || i == 21 || i == 22 || i == 23 || i == 24 || i == 25 || i == 26 || i == 27 || i == 28 || i == 29 || i == 30 || i == 31 || i == 32 || i == 33 || i == 34 || i == 35 || i == 36 || i == 37 || i == 38 || i == 39 || i == 40 || i == 41 || i == 42 || i == 43 || i == 44 || i == 45 || i == 46 || i == 47 || i == 48 || i == 49 || i == 50 || i == 51 || i == 52 || i == 53 || i == 54 || i == 55 || i == 56 || i == 57 || i == 58 || i == 59);
    }
}

proof fn lemma_layout_keys_listed()
    ensures
        forall|k: Key|
            (#[trigger] fun60_position(k)) is Some ==> exists|i: int|
                0 <= i < spec_matrix_names().len() && spec_matrix_names()[i] == (
                    fun60_position(k)->Some_0,
                    crate::hid::spec_db_name(k)->Some_0,
                ),
{
    let names = spec_matrix_names();
    assert forall|k: Key| (#[trigger] fun60_position(k)) is Some implies exists|i: int|
        0 <= i < names.len() && names[i] == (fun60_position(k)->Some_0, crate::hid::spec_db_name(k)->Some_0) by {
        match k {
            Key::Escape => { assert(names[0] == (1u8, "Esc"@)); },
            Key::Tab => { assert(names[1] == (2u8, "Tab"@)); },
            Key::CapsLock => { assert(names[2] == (3u8, "CapsLock"@)); },
            Key::LShift => { assert(names[3] == (4u8, "LShift"@)); },
            Key::LCtrl => { assert(names[4] == (5u8, "LCtrl"@)); },
            Key::Num1 => { assert(names[5] == (7u8, "1"@)); },
            Key::Q => { assert(names[6] == (8u8, "Q"@)); },
            Key::A => { assert(names[7] == (9u8, "A"@)); },
            Key::Num2 => { assert(names[8] == (13u8, "2"@)); },
            Key::W => { assert(names[9] == (14u8, "W"@)); },
            Key::S => { assert(names[10] == (15u8, "S"@)); },
            Key::Z => { assert(names[11] == (16u8, "Z"@)); },
            Key::LMeta => { assert(names[12] == (17u8, "LMeta"@)); },
            Key::Num3 => { assert(names[13] == (19u8, "3"@)); },
            Key::E => { assert(names[14] == (20u8, "E"@)); },
            Key::D => { assert(names[15] == (21u8, "D"@)); },
            Key::X => { assert(names[16] == (22u8, "X"@)); },
            Key::LAlt => { assert(names[17] == (23u8, "LAlt"@)); },
            Key::Num4 => { assert(names[18] == (25u8, "4"@)); },
            Key::R => { assert(names[19] == (26u8, "R"@)); },
            Key::F => { assert(names[20] == (27u8, "F"@)); },
            Key::C => { assert(names[21] == (28u8, "C"@)); },
            Key::Num5 => { assert(names[22] == (31u8, "5"@)); },
            Key::T => { assert(names[23] == (32u8, "T"@)); },
            Key::G => { assert(names[24] == (33u8, "G"@)); },
            Key::V => { assert(names[25] == (34u8, "V"@)); },
            Key::Num6 => { assert(names[26] == (37u8, "6"@)); },
            Key::Y => { assert(names[27] == (38u8, "Y"@)); },
            Key::H => { assert(names[28] == (39u8, "H"@)); },
            Key::B => { assert(names[29] == (40u8, "B"@)); },
            Key::Space => { assert(names[30] == (41u8, "Space"@)); },
            Key::Num7 => { assert(names[31] == (43u8, "7"@)); },
            Key::U => { assert(names[32] == (44u8, "U"@)); },
            Key::J => { assert(names[33] == (45u8, "J"@)); },
            Key::N => { assert(names[34] == (46u8, "N"@)); },
            Key::Num8 => { assert(names[35] == (49u8, "8"@)); },
            Key::I => { assert(names[36] == (50u8, "I"@)); },
            Key::K => { assert(names[37] == (51u8, "K"@)); },
            Key::M => { assert(names[38] == (52u8, "M"@)); },
            Key::Num9 => { assert(names[39] == (55u8, "9"@)); },
            Key::O => { assert(names[40] == (56u8, "O"@)); },
            Key::L => { assert(names[41] == (57u8, "L"@)); },
            Key::Comma => { assert(names[42] == (58u8, ","@)); },
            Key::Num0 => { assert(names[43] == (61u8, "0"@)); },
            Key::P => { assert(names[44] == (62u8, "P"@)); },
            Key::Semicolon => { assert(names[45] == (63u8, ";"@)); },
            Key::Dot => { assert(names[46] == (64u8, "."@)); },
            Key::RAlt => { assert(names[47] == (65u8, "RAlt"@)); },
            Key::Minus => { assert(names[48] == (67u8, "-"@)); },
            Key::LeftBracket => { assert(names[49] == (68u8, "["@)); },
            Key::Apostrophe => { assert(names[50] == (69u8, "'"@)); },
            Key::Slash => { assert(names[51] == (70u8, "/"@)); },
            Key::Equal => { assert(names[52] == (73u8, "="@)); },
            Key::RightBracket => { assert(names[53] == (74u8, "]"@)); },
            Key::RShift => { assert(names[54] == (76u8, "RShift"@)); },
            Key::Application => { assert(names[55] == (77u8, "Application"@)); },
            Key::Backspace => { assert(names[56] == (79u8, "Backspace"@)); },
            Key::Backslash => { assert(names[57] == (80u8, "\\"@)); },
            Key::Enter => { assert(names[58] == (81u8, "Enter"@)); },
            Key::RCtrl => { assert(names[59] == (83u8, "RCtrl"@)); },
            _ => {},
        }
    }
}

/// Every entry of the matrix-name table sits at its key's physical
/// position: the name stands for a key whose FUN60 position is the entry's
/// matrix index; and every key on the layout has an entry.
pub proof fn lemma_matrix_names_at_positions()
    ensures
        forall|i: int|
            0 <= i < spec_matrix_names().len() ==> (#[trigger] crate::hid::spec_db_key_of(
                spec_matrix_names()[i].1,
            )) is Some && fun60_position(
                crate::hid::spec_db_key_of(spec_matrix_names()[i].1)->Some_0,
            ) == Some(spec_matrix_names()[i].0),
        forall|k: Key|
            (#[trigger] fun60_position(k)) is Some ==> exists|i: int|
                0 <= i < spec_matrix_names().len() && spec_matrix_names()[i] == (
                    fun60_position(k)->Some_0,
                    crate::hid::spec_db_name(k)->Some_0,
                ),
{
    lemma_matrix_names_keys_at_positions();
    lemma_layout_keys_listed();
}


/// Each entry of the HID table is its matrix position with the code of the
/// key its name stands for.
pub proof fn lemma_matrix_to_hid_entries()
    ensures
        spec_matrix_to_hid().len() == spec_matrix_names().len(),
        forall|j: int|
            0 <= j < spec_matrix_names().len() ==> #[trigger] spec_matrix_to_hid()[j] == (
                spec_matrix_names()[j].0,
                crate::hid::spec_code(crate::hid::spec_db_key_of(spec_matrix_names()[j].1)->Some_0),
            ),
{
    lemma_matrix_names_shape();
    let names = spec_matrix_names();
    lemma_keys_of_all_mapped(names);
    let ks = keys_of_names(names);
    assert(spec_matrix_to_hid() =~= codes_of_keys(ks));
}

} // verus!
