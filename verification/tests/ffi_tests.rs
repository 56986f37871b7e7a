use fun60_analog_plugin::ffi::{
    generate_device_id, DeviceEventType, DeviceSupportLevel, DeviceType, WootingAnalogResult,
    ANALOG_SDK_PLUGIN_ABI_VERSION, FUN60_PID, FUN60_VID,
};

#[test]
fn error_casts_are_negative_floats() {
    assert_eq!(WootingAnalogResult::Success.as_i32() as f32, 1.0);
    assert_eq!(WootingAnalogResult::UnInitialized.as_i32() as f32, -2000.0);
    assert_eq!(WootingAnalogResult::DeviceDisconnected.as_i32(), -1998);
}

#[test]
fn device_id_is_stable() {
    let a = generate_device_id("serial", 0x3151, 0x5030);
    let b = generate_device_id("serial", 0x3151, 0x5030);
    assert_eq!(a, b);
    assert_ne!(a, generate_device_id("other", 0x3151, 0x5030));
}

#[test]
fn device_id_depends_on_usb_identity() {
    let a = generate_device_id("serial", FUN60_VID, FUN60_PID);
    assert_ne!(a, generate_device_id("serial", FUN60_PID, FUN60_VID));
    assert_ne!(a, generate_device_id("serial", FUN60_VID, FUN60_PID + 1));
}

#[test]
fn result_codes_match_the_sdk_header() {
    assert_eq!(WootingAnalogResult::NoDevices.as_i32(), -1999);
    assert_eq!(WootingAnalogResult::Failure.as_i32(), -1997);
    assert_eq!(WootingAnalogResult::InvalidArgument.as_i32(), -1996);
    assert_eq!(WootingAnalogResult::NoMapping.as_i32(), -1993);
    assert_eq!(WootingAnalogResult::IncompatibleVersion.as_i32(), -1991);
    assert_eq!(DeviceType::Keyboard.value(), 1);
    assert_eq!(DeviceType::Keypad.value(), 2);
    assert_eq!(DeviceType::Other.value(), 3);
    assert_eq!(DeviceSupportLevel::Limited.value(), 0);
    assert_eq!(DeviceSupportLevel::Basic.value(), 1);
    assert_eq!(DeviceEventType::Connected.value(), 1);
    assert_eq!(DeviceEventType::Disconnected.value(), 2);
    assert_eq!(ANALOG_SDK_PLUGIN_ABI_VERSION, 2);
}
