//! Plugin core decisions: the keymap table, the reverse code lookup, the
//! pressed-key report, the full-travel setting, the device identity, and the
//! answers of the SDK entry points.

use crate::ffi::{DeviceID, FUN60_PID, FUN60_VID, WootingAnalogResult, generate_device_id};
use crate::keymap::{DEFAULT_FULL_TRAVEL, build_matrix_to_hid};
use std::collections::HashMap;
use vstd::prelude::*;

verus! {

/// Serial used for the device ID. The depth protocol does not expose a
/// serial; fall back to a stable placeholder tied to the VID/PID identity.
pub const SERIAL_PLACEHOLDER: &'static str = "fun60-ultra";

/// The map that collecting `pairs` into a table gives: later pairs for the
/// same key win.
pub open spec fn pairs_map(pairs: Seq<(u8, u16)>) -> Map<u8, u16>
    decreases pairs.len(),
{
    if pairs.len() == 0 {
        Map::empty()
    } else {
        pairs_map(pairs.drop_last()).insert(pairs.last().0, pairs.last().1)
    }
}

/// Collect (matrix index, HID code) pairs into a lookup table.
pub fn table_of_pairs(pairs: &Vec<(u8, u16)>) -> (m: HashMap<u8, u16>)
    ensures
        m@ == pairs_map(pairs@),
{
    broadcast use vstd::std_specs::hash::group_hash_axioms;
    let mut m: HashMap<u8, u16> = HashMap::new();
    let mut i: usize = 0;
    while i < pairs.len()
        invariant
            i <= pairs@.len(),
            m@ == pairs_map(pairs@.take(i as int)),
        decreases pairs@.len() - i,
    {
        let (k, c) = pairs[i];
        m.insert(k, c);
        assert(pairs@.take(i + 1).drop_last() =~= pairs@.take(i as int));
        i = i + 1;
    }
    assert(pairs@.take(pairs@.len() as int) =~= pairs@);
    m
}

/// The plugin's matrix index -> HID code table for the FUN60 Ultra.
pub fn fun60_keymap() -> (m: HashMap<u8, u16>)
    ensures
        m@ == pairs_map(crate::keymap::spec_matrix_to_hid()),
{
    let pairs = build_matrix_to_hid();
    table_of_pairs(&pairs)
}

/// Whether some matrix index maps to `code`.
pub open spec fn maps_to(keymap: Map<u8, u16>, i: u8, code: u16) -> bool {
    keymap.contains_key(i) && keymap[i] == code
}

/// Invert the keymap: the matrix index whose HID code is `code` (the
/// lowest, should several share it), or None when no key has that code.
pub fn matrix_index_for_code(keymap: &HashMap<u8, u16>, code: u16) -> (r: Option<u8>)
    ensures
        match r {
            Some(i) => maps_to(keymap@, i, code) && forall|j: u8| j < i ==> !maps_to(keymap@, j, code),
            None => forall|j: u8| !maps_to(keymap@, j, code),
        },
{
    broadcast use vstd::std_specs::hash::group_hash_axioms;
    let mut k: u16 = 0;
    while k < 256
        invariant
            k <= 256,
            forall|j: u8| j < k ==> !maps_to(keymap@, j, code),
        decreases 256 - k,
    {
        let key = k as u8;
        match keymap.get(&key) {
            Some(c) => {
                if *c == code {
                    return Some(key);
                }
            },
            None => {},
        }
        k = k + 1;
    }
    None
}

/// The pressed keys as (HID code, depth), skipping matrix indices the
/// keymap does not name.
pub open spec fn spec_pressed_codes(pressed: Seq<(u8, u16)>, keymap: Map<u8, u16>) -> Seq<(u16, u16)>
    decreases pressed.len(),
{
    if pressed.len() == 0 {
        Seq::empty()
    } else {
        let rest = spec_pressed_codes(pressed.drop_last(), keymap);
        let (idx, depth) = pressed.last();
        if keymap.contains_key(idx) {
            rest.push((keymap[idx], depth))
        } else {
            rest
        }
    }
}

/// Map pressed (matrix index, depth) pairs to (HID code, depth), in order,
/// skipping unmapped indices.
pub fn pressed_codes(pressed: &Vec<(u8, u16)>, keymap: &HashMap<u8, u16>) -> (r: Vec<(u16, u16)>)
    ensures
        r@ == spec_pressed_codes(pressed@, keymap@),
{
    broadcast use vstd::std_specs::hash::group_hash_axioms;
    let mut out: Vec<(u16, u16)> = Vec::new();
    let mut i: usize = 0;
    while i < pressed.len()
        invariant
            i <= pressed@.len(),
            out@ == spec_pressed_codes(pressed@.take(i as int), keymap@),
        decreases pressed@.len() - i,
    {
        let (idx, depth) = pressed[i];
        assert(pressed@.take(i + 1).drop_last() =~= pressed@.take(i as int));
        match keymap.get(&idx) {
            Some(code) => out.push((*code, depth)),
            None => {},
        }
        i = i + 1;
    }
    assert(pressed@.take(pressed@.len() as int) =~= pressed@);
    out
}

pub open spec fn is_decimal_digit(c: char) -> bool {
    '0' <= c <= '9'
}

/// The value of a string of decimal digits.
pub open spec fn decimal_value(ds: Seq<char>) -> int
    decreases ds.len(),
{
    if ds.len() == 0 {
        0
    } else {
        decimal_value(ds.drop_last()) * 10 + (ds.last() as int - '0' as int)
    }
}

/// The part of `s` that must be digits: all of it, or all but a leading `+`.
pub open spec fn digits_part(s: Seq<char>) -> Seq<char> {
    if s.len() > 0 && s[0] == '+' {
        s.skip(1)
    } else {
        s
    }
}

pub open spec fn all_decimal_digits(ds: Seq<char>) -> bool {
    forall|i: int| 0 <= i < ds.len() ==> is_decimal_digit(#[trigger] ds[i])
}

/// What `str::parse::<u16>` accepts: an optional `+`, then one or more
/// decimal digits whose value fits in a `u16`; anything else is an error.
pub open spec fn spec_parse_u16(s: Seq<char>) -> Option<u16> {
    let ds = digits_part(s);
    if ds.len() > 0 && all_decimal_digits(ds) && decimal_value(ds) <= 65535 {
        Some(decimal_value(ds) as u16)
    } else {
        None
    }
}

/// The value of the digits read so far, held at 65536 once it no longer
/// fits in a `u16`.
pub open spec fn capped_decimal(ds: Seq<char>) -> int {
    if decimal_value(ds) > 65536 {
        65536
    } else {
        decimal_value(ds)
    }
}

proof fn lemma_capped_step(ds: Seq<char>, c: char)
    requires
        is_decimal_digit(c),
        decimal_value(ds) >= 0,
    ensures
        decimal_value(ds.push(c)) == decimal_value(ds) * 10 + (c as int - '0' as int),
        capped_decimal(ds.push(c)) == if capped_decimal(ds) * 10 + (c as int - '0' as int) > 65535 {
            65536
        } else {
            capped_decimal(ds) * 10 + (c as int - '0' as int)
        },
{
    assert(ds.push(c).drop_last() =~= ds);
}

proof fn lemma_decimal_nonneg(ds: Seq<char>)
    requires
        forall|i: int| 0 <= i < ds.len() ==> is_decimal_digit(#[trigger] ds[i]),
    ensures
        decimal_value(ds) >= 0,
    decreases ds.len(),
{
    if ds.len() > 0 {
        let d = ds.drop_last();
        assert forall|i: int| 0 <= i < d.len() implies is_decimal_digit(#[trigger] d[i]) by {
            assert(d[i] == ds[i]);
        }
        lemma_decimal_nonneg(d);
        assert(is_decimal_digit(ds[ds.len() - 1]));
    }
}

/// Parse a `u16` as `str::parse::<u16>` does: an optional `+`, then one or
/// more decimal digits whose value fits; anything else is `None`.
pub fn parse_u16(s: &str) -> (r: Option<u16>)
    ensures
        r == spec_parse_u16(s@),
{
    broadcast use vstd::string::is_ascii_spec_bytes;
    broadcast use vstd::utf8::is_ascii_chars_nat_bound;
    let ghost cs = s@;
    let ghost ds = digits_part(cs);
    if !s.is_ascii() {
        proof {
            let j = choose|j: int| 0 <= j < cs.len() && !('\0' <= #[trigger] cs[j] <= '\u{7f}');
            if cs.len() > 0 && cs[0] == '+' {
                assert(ds[j - 1] == cs[j]);
                assert(!is_decimal_digit(ds[j - 1]));
            } else {
                assert(ds[j] == cs[j]);
                assert(!is_decimal_digit(ds[j]));
            }
            assert(!all_decimal_digits(ds));
        }
        return None;
    }
    let bytes = s.as_bytes();
    let n = bytes.len();
    assert(n == cs.len());
    let mut start: usize = 0;
    if n > 0 && bytes[0] == 0x2b {
        assert(cs[0] as u8 == 0x2b);
        assert(cs[0] == '+');
        start = 1;
    } else if n > 0 {
        assert(cs[0] as u8 == bytes@[0]);
        assert(cs[0] != '+');
    }
    assert(ds =~= cs.skip(start as int));
    if start >= n {
        return None;
    }
    let mut value: u32 = 0;
    let mut i: usize = start;
    while i < n
        invariant
            start <= i <= n,
            n == cs.len(),
            bytes@.len() == n,
            ds == cs.skip(start as int),
            ds == digits_part(s@),
            vstd::string::is_ascii(s),
            cs == s@,
            forall|k: int| 0 <= k < n ==> bytes@[k] == cs[k] as u8,
            forall|k: int| 0 <= k < i - start ==> is_decimal_digit(#[trigger] ds[k]),
            value == capped_decimal(ds.take(i - start)),
        decreases n - i,
    {
        let b = bytes[i];
        let ghost c = cs[i as int];
        assert((c as nat) < 128);
        assert(b == c as u8);
        assert(ds[i - start] == c);
        if b < 0x30 || b > 0x39 {
            assert(!is_decimal_digit(c));
            assert(!all_decimal_digits(ds));
            return None;
        }
        assert(is_decimal_digit(c));
        assert((b - 0x30) as int == c as int - '0' as int);
        let d = (b - 0x30) as u32;
        proof {
            let pre = ds.take(i - start);
            assert(ds.take(i + 1 - start) =~= pre.push(c));
            assert forall|k: int| 0 <= k < pre.len() implies is_decimal_digit(#[trigger] pre[k]) by {
                assert(pre[k] == ds[k]);
            }
            lemma_decimal_nonneg(pre);
            lemma_capped_step(pre, c);
        }
        value = if value * 10 + d > 65535 {
            65536
        } else {
            value * 10 + d
        };
        i = i + 1;
    }
    assert(ds.take(n - start) =~= ds);
    if value > 65535 {
        None
    } else {
        Some(value as u16)
    }
}

/// The full travel a setting gives: the setting when it is a positive
/// `u16`, the default otherwise.
pub open spec fn spec_full_travel(setting: Option<Seq<char>>) -> u16 {
    match setting {
        Some(s) => match spec_parse_u16(s) {
            Some(v) => if v > 0 {
                v
            } else {
                DEFAULT_FULL_TRAVEL
            },
            None => DEFAULT_FULL_TRAVEL,
        },
        None => DEFAULT_FULL_TRAVEL,
    }
}

/// Full travel (0.01mm units) from an optional override setting, such as
/// the `FUN60_FULL_TRAVEL` environment variable.
pub fn full_travel_from(setting: Option<&str>) -> (t: u16)
    ensures
        t == spec_full_travel(
            match setting {
                Some(s) => Some(s@),
                None => None,
            },
        ),
        t > 0,
{
    match setting {
        Some(s) => match parse_u16(s) {
            Some(v) => if v > 0 {
                v
            } else {
                DEFAULT_FULL_TRAVEL
            },
            None => DEFAULT_FULL_TRAVEL,
        },
        None => DEFAULT_FULL_TRAVEL,
    }
}

/// The FUN60 Ultra's device ID: the placeholder serial hashed with its USB
/// identity.
pub fn fun60_device_id() -> (id: DeviceID)
    ensures
        crate::ffi::is_device_id(
            id,
            vstd::string::StringSliceAdditionalSpecFns::spec_bytes(SERIAL_PLACEHOLDER),
            FUN60_VID,
            FUN60_PID,
        ),
{
    generate_device_id(SERIAL_PLACEHOLDER, FUN60_VID, FUN60_PID)
}

/// Whether a request names this plugin's device: device 0 means any.
pub fn device_matches(requested: DeviceID, own: DeviceID) -> (b: bool)
    ensures
        b == (requested == 0 || requested == own),
{
    requested == 0 || requested == own
}

/// Which error an SDK read entry point answers, the checks taken in order:
/// the plugin not initialised, the request naming another device, the
/// device not connected; None when the request can be served.
pub fn request_error(initialised: bool, device_ok: bool, connected: bool) -> (r: Option<
    WootingAnalogResult,
>)
    ensures
        r == if !initialised {
            Some(WootingAnalogResult::UnInitialized)
        } else if !device_ok {
            Some(WootingAnalogResult::NoDevices)
        } else if !connected {
            Some(WootingAnalogResult::DeviceDisconnected)
        } else {
            None
        },
{
    if !initialised {
        Some(WootingAnalogResult::UnInitialized)
    } else if !device_ok {
        Some(WootingAnalogResult::NoDevices)
    } else if !connected {
        Some(WootingAnalogResult::DeviceDisconnected)
    } else {
        None
    }
}

/// What `initialise` answers: the number of connected devices, 1 when the
/// FUN60 is reachable through the depth server, 0 when it is not (yet)
/// reachable (the plugin loaded fine; the SDK can retry through later read
/// calls or expect a Connected event).
pub fn initialise_result(connected: bool) -> (r: i32)
    ensures
        r == if connected {
            1i32
        } else {
            0i32
        },
{
    if connected {
        1
    } else {
        0
    }
}

/// How many device-info entries `device_info` writes into a buffer of `len`
/// slots: one when there is room, else none.
pub fn device_info_count(len: i32) -> (n: i32)
    ensures
        n == if len < 1 {
            0i32
        } else {
            1i32
        },
{
    if len < 1 {
        0
    } else {
        1
    }
}

/// How many pressed keys `read_full_buffer` writes into buffers of `len`
/// slots when `available` keys are pressed: a negative length is an invalid
/// argument; otherwise as many as fit.
pub fn full_buffer_count(available: usize, len: i32) -> (r: Result<usize, WootingAnalogResult>)
    ensures
        len < 0 ==> r == Err::<usize, WootingAnalogResult>(WootingAnalogResult::InvalidArgument),
        len >= 0 ==> r == Ok::<usize, WootingAnalogResult>(
            if available < len {
                available
            } else {
                len as usize
            },
        ),
{
    if len < 0 {
        return Err(WootingAnalogResult::InvalidArgument);
    }
    let cap = len as u32 as usize;
    if available < cap {
        Ok(available)
    } else {
        Ok(cap)
    }
}

proof fn lemma_pairs_map_distinct(s: Seq<(u8, u16)>)
    requires
        forall|i: int, j: int| 0 <= i < s.len() && 0 <= j < s.len() && i != j ==> s[i].0 != s[j].0,
    ensures
        forall|i: int|
            0 <= i < s.len() ==> pairs_map(s).contains_key(#[trigger] s[i].0) && pairs_map(s)[s[i].0]
                == s[i].1,
        forall|k: u8|
            #[trigger] pairs_map(s).contains_key(k) ==> exists|i: int|
                0 <= i < s.len() && s[i].0 == k && pairs_map(s)[k] == s[i].1,
    decreases s.len(),
{
    if s.len() > 0 {
        let d = s.drop_last();
        assert forall|i: int, j: int| 0 <= i < d.len() && 0 <= j < d.len() && i != j implies d[i].0
            != d[j].0 by {
            assert(d[i] == s[i] && d[j] == s[j]);
        }
        lemma_pairs_map_distinct(d);
        let last = s.len() - 1;
        assert forall|i: int| 0 <= i < s.len() implies pairs_map(s).contains_key(#[trigger] s[i].0)
            && pairs_map(s)[s[i].0] == s[i].1 by {
            if i < last {
                assert(d[i] == s[i]);
                assert(s[i].0 != s[last].0);
            }
        }
        assert forall|k: u8| #[trigger] pairs_map(s).contains_key(k) implies exists|i: int|
            0 <= i < s.len() && s[i].0 == k && pairs_map(s)[k] == s[i].1 by {
            if k != s[last].0 {
                assert(pairs_map(d).contains_key(k));
                let i = choose|i: int| 0 <= i < d.len() && d[i].0 == k && pairs_map(d)[k] == d[i].1;
                assert(s[i] == d[i]);
            } else {
                assert(s[last].0 == k);
            }
        }
    }
}

/// Reading a key's code back through the FUN60 Ultra keymap finds the key:
/// each matrix position maps to its table code, and no other position has
/// that code.
pub proof fn lemma_fun60_keymap_reverse(i: int)
    requires
        0 <= i < 60,
    ensures
        maps_to(
            pairs_map(crate::keymap::spec_matrix_to_hid()),
            crate::keymap::spec_matrix_to_hid()[i].0,
            crate::keymap::spec_matrix_to_hid()[i].1,
        ),
        forall|j: u8|
            maps_to(pairs_map(crate::keymap::spec_matrix_to_hid()), j, crate::keymap::spec_matrix_to_hid()[i].1)
                ==> j == crate::keymap::spec_matrix_to_hid()[i].0,
{
    let hid = crate::keymap::spec_matrix_to_hid();
    crate::keymap::lemma_matrix_to_hid_is_keyboard();
    crate::keymap::lemma_matrix_to_hid_codes_distinct();
    lemma_pairs_map_distinct(hid);
    let km = pairs_map(hid);
    assert(km.contains_key(hid[i].0));
    assert forall|j: u8| maps_to(km, j, hid[i].1) implies j == hid[i].0 by {
        assert(km.contains_key(j));
        let t = choose|t: int| 0 <= t < hid.len() && hid[t].0 == j && km[j] == hid[t].1;
        if t != i {
            assert(hid[t].1 != hid[i].1);
        }
    }
}

/// The FUN60 Ultra keymap sends each key's physical matrix position to that
/// key's HID code, and maps no other position.
pub proof fn lemma_fun60_keymap_by_key()
    ensures
        forall|k: crate::hid::Key|
            (#[trigger] crate::keymap::fun60_position(k)) is Some ==> maps_to(
                pairs_map(crate::keymap::spec_matrix_to_hid()),
                crate::keymap::fun60_position(k)->Some_0,
                crate::hid::spec_code(k),
            ),
        forall|i: u8|
            #[trigger] pairs_map(crate::keymap::spec_matrix_to_hid()).contains_key(i) ==> exists|
                k: crate::hid::Key,
            | crate::keymap::fun60_position(k) == Some(i),
{
    let hid = crate::keymap::spec_matrix_to_hid();
    let names = crate::keymap::spec_matrix_names();
    crate::keymap::lemma_matrix_to_hid_is_keyboard();
    crate::keymap::lemma_matrix_to_hid_codes_distinct();
    crate::keymap::lemma_matrix_to_hid_entries();
    crate::keymap::lemma_matrix_names_at_positions();
    lemma_pairs_map_distinct(hid);
    let km = pairs_map(hid);
    assert forall|k: crate::hid::Key| (#[trigger] crate::keymap::fun60_position(k)) is Some implies maps_to(
        km,
        crate::keymap::fun60_position(k)->Some_0,
        crate::hid::spec_code(k),
    ) by {
        let j = choose|j: int|
            0 <= j < names.len() && names[j] == (
                crate::keymap::fun60_position(k)->Some_0,
                crate::hid::spec_db_name(k)->Some_0,
            );
        crate::hid::lemma_db_name_round_trip(k);
        assert(hid[j] == (names[j].0, crate::hid::spec_code(k)));
        assert(km.contains_key(hid[j].0));
    }
    assert forall|i: u8| #[trigger] km.contains_key(i) implies exists|k: crate::hid::Key|
        crate::keymap::fun60_position(k) == Some(i) by {
        let j = choose|j: int| 0 <= j < hid.len() && hid[j].0 == i && km[i] == hid[j].1;
        assert(hid[j].0 == names[j].0);
        let k = crate::hid::spec_db_key_of(names[j].1)->Some_0;
        assert(crate::keymap::fun60_position(k) == Some(names[j].0));
    }
}

/// The pressed-key report is the pressed list mapped through the keymap at
/// each entry's own matrix index, in order, with unmapped indices skipped.
pub proof fn lemma_pressed_codes_maps_each_entry(pressed: Seq<(u8, u16)>, keymap: Map<u8, u16>)
    ensures
        spec_pressed_codes(pressed, keymap) == pressed.filter(|e: (u8, u16)| keymap.contains_key(e.0)).map_values(
            |e: (u8, u16)| (keymap[e.0], e.1),
        ),
    decreases pressed.len(),
{
    let pred = |e: (u8, u16)| keymap.contains_key(e.0);
    let f = |e: (u8, u16)| (keymap[e.0], e.1);
    reveal(Seq::filter);
    if pressed.len() > 0 {
        lemma_pressed_codes_maps_each_entry(pressed.drop_last(), keymap);
        let prev = pressed.drop_last().filter(pred);
        if pred(pressed.last()) {
            assert(prev.push(pressed.last()).map_values(f) =~= prev.map_values(f).push(f(pressed.last())));
        }
    } else {
        assert(pressed.filter(pred).map_values(f) =~= Seq::<(u16, u16)>::empty());
    }
}

} // verus!
