//! Wooting Analog SDK plugin-side definitions (`includes/plugin.h` and
//! `includes/wooting-analog-sdk.h`, ABI version 2): the enums the C ABI
//! passes, their C values, the FUN60 Ultra identity and its device ID.

use std::collections::hash_map::DefaultHasher;
use std::hash::Hasher;
use vstd::prelude::*;

verus! {

pub const ANALOG_SDK_PLUGIN_ABI_VERSION: u32 = 2;

/// `WootingAnalog_DeviceID`
pub type DeviceID = u64;

/// FUN60 Ultra USB vendor ID.
pub const FUN60_VID: u16 = 0x3151;

/// FUN60 Ultra USB product ID.
pub const FUN60_PID: u16 = 0x5030;

/// `WootingAnalog_DeviceType`
#[derive(Debug, Clone, Copy, PartialEq, Eq, Structural)]
pub enum DeviceType {
    Keyboard,
    Keypad,
    Other,
}

impl DeviceType {
    /// The C enumerator value.
    pub fn value(self) -> (v: i32)
        ensures
            v == match self {
                DeviceType::Keyboard => 1i32,
                DeviceType::Keypad => 2i32,
                DeviceType::Other => 3i32,
            },
    {
        match self {
            DeviceType::Keyboard => 1,
            DeviceType::Keypad => 2,
            DeviceType::Other => 3,
        }
    }
}

/// `WootingAnalog_DeviceSupportLevel`
#[derive(Debug, Clone, Copy, PartialEq, Eq, Structural)]
pub enum DeviceSupportLevel {
    /// Only raw keycodes and analog values, no extra metadata.
    Limited,
    /// Keycodes + analog values with metadata, position polling.
    Basic,
}

impl DeviceSupportLevel {
    /// The C enumerator value.
    pub fn value(self) -> (v: i32)
        ensures
            v == match self {
                DeviceSupportLevel::Limited => 0i32,
                DeviceSupportLevel::Basic => 1i32,
            },
    {
        match self {
            DeviceSupportLevel::Limited => 0,
            DeviceSupportLevel::Basic => 1,
        }
    }
}

/// `WootingAnalog_DeviceEventType`
#[derive(Debug, Clone, Copy, PartialEq, Eq, Structural)]
pub enum DeviceEventType {
    Connected,
    Disconnected,
}

impl DeviceEventType {
    /// The C enumerator value.
    pub fn value(self) -> (v: i32)
        ensures
            v == match self {
                DeviceEventType::Connected => 1i32,
                DeviceEventType::Disconnected => 2i32,
            },
    {
        match self {
            DeviceEventType::Connected => 1,
            DeviceEventType::Disconnected => 2,
        }
    }
}

/// `WootingAnalogResult` values (subset used by plugins; errors are returned
/// cast to the function's return type per the C plugin convention).
#[derive(Debug, Clone, Copy, PartialEq, Eq, Structural)]
pub enum WootingAnalogResult {
    /// `WootingAnalogResult_Ok`.
    Success,
    UnInitialized,
    NoDevices,
    DeviceDisconnected,
    Failure,
    InvalidArgument,
    NoMapping,
    IncompatibleVersion,
}

/// The C value of each result.
pub open spec fn result_value(r: WootingAnalogResult) -> int {
    match r {
        WootingAnalogResult::Success => 1,
        WootingAnalogResult::UnInitialized => -2000,
        WootingAnalogResult::NoDevices => -1999,
        WootingAnalogResult::DeviceDisconnected => -1998,
        WootingAnalogResult::Failure => -1997,
        WootingAnalogResult::InvalidArgument => -1996,
        WootingAnalogResult::NoMapping => -1993,
        WootingAnalogResult::IncompatibleVersion => -1991,
    }
}

impl WootingAnalogResult {
    /// Cast a result to the int return type of `initialise`/`device_info`/
    /// `read_full_buffer`.
    pub fn as_i32(self) -> (v: i32)
        ensures
            v == result_value(self),
    {
        match self {
            WootingAnalogResult::Success => 1,
            WootingAnalogResult::UnInitialized => -2000,
            WootingAnalogResult::NoDevices => -1999,
            WootingAnalogResult::DeviceDisconnected => -1998,
            WootingAnalogResult::Failure => -1997,
            WootingAnalogResult::InvalidArgument => -1996,
            WootingAnalogResult::NoMapping => -1993,
            WootingAnalogResult::IncompatibleVersion => -1991,
        }
    }
}

/// Every result but `Success` is negative, so it cannot be mistaken for a count
/// or an analog value.
pub proof fn lemma_errors_are_negative(r: WootingAnalogResult)
    ensures
        r == WootingAnalogResult::Success <==> result_value(r) > 0,
        r != WootingAnalogResult::Success ==> result_value(r) < 0,
{
}

/// The two bytes of a `u16`, least significant first when `little`.
pub open spec fn u16_bytes(value: u16, little: bool) -> Seq<u8> {
    if little {
        seq![(value % 256) as u8, (value / 256) as u8]
    } else {
        seq![(value / 256) as u8, (value % 256) as u8]
    }
}

/// `Hasher::write_u16` on std's `DefaultHasher`: it writes the value's two
/// bytes in the machine's native byte order as one write. The contract
/// claims that one write of the two bytes, in one byte order or the other;
/// which order is the machine's is left unsaid.
#[verifier::external_body]
fn hasher_write_u16(h: &mut DefaultHasher, value: u16)
    ensures
        final(h)@ == old(h)@.push(u16_bytes(value, true)) || final(h)@ == old(h)@.push(
            u16_bytes(value, false),
        ),
{
    h.write_u16(value);
}

/// The device ID of a serial and a USB identity, with the IDs written in the
/// given byte orders: the `DefaultHasher` digest of the vendor ID, the
/// product ID, then the serial's bytes.
pub open spec fn spec_device_id(
    serial: Seq<u8>,
    vendor_id: u16,
    product_id: u16,
    vendor_little: bool,
    product_little: bool,
) -> u64 {
    <DefaultHasher as vstd::std_specs::hash::DefaultHasherAdditionalSpecFns>::spec_finish(
        seq![u16_bytes(vendor_id, vendor_little), u16_bytes(product_id, product_little), serial],
    )
}

/// Whether `id` is the device ID of a serial and a USB identity, on a
/// machine of either byte order.
pub open spec fn is_device_id(id: u64, serial: Seq<u8>, vendor_id: u16, product_id: u16) -> bool {
    ||| id == spec_device_id(serial, vendor_id, product_id, true, true)
    ||| id == spec_device_id(serial, vendor_id, product_id, true, false)
    ||| id == spec_device_id(serial, vendor_id, product_id, false, true)
    ||| id == spec_device_id(serial, vendor_id, product_id, false, false)
}

/// Generate a stable device ID the same way the Wooting SDK does
/// (`DefaultHasher` over vid, pid, serial bytes). Using the same algorithm
/// keeps device identity consistent with other plugins/tools.
pub fn generate_device_id(serial: &str, vendor_id: u16, product_id: u16) -> (id: DeviceID)
    ensures
        is_device_id(
            id,
            vstd::string::StringSliceAdditionalSpecFns::spec_bytes(serial),
            vendor_id,
            product_id,
        ),
{
    let mut s = DefaultHasher::new();
    hasher_write_u16(&mut s, vendor_id);
    hasher_write_u16(&mut s, product_id);
    s.write(serial.as_bytes());
    let ghost w = s@;
    let ghost sb = vstd::string::StringSliceAdditionalSpecFns::spec_bytes(serial);
    proof {
        let e = Seq::<Seq<u8>>::empty();
        if w == e.push(u16_bytes(vendor_id, true)).push(u16_bytes(product_id, true)).push(sb) {
            assert(w =~= seq![u16_bytes(vendor_id, true), u16_bytes(product_id, true), sb]);
        } else if w == e.push(u16_bytes(vendor_id, true)).push(u16_bytes(product_id, false)).push(sb) {
            assert(w =~= seq![u16_bytes(vendor_id, true), u16_bytes(product_id, false), sb]);
        } else if w == e.push(u16_bytes(vendor_id, false)).push(u16_bytes(product_id, true)).push(sb) {
            assert(w =~= seq![u16_bytes(vendor_id, false), u16_bytes(product_id, true), sb]);
        } else {
            assert(w =~= seq![u16_bytes(vendor_id, false), u16_bytes(product_id, false), sb]);
        }
    }
    s.finish()
}

} // verus!
