# fun60_analog_plugin

Userspace plugin for the MonsGeek FUN60 Ultra analog keyboard on Linux: it
reads per-key depth values from the `iot_driver depth-server` Unix socket and
serves them through the Wooting Analog SDK plugin C ABI.

The logic is written in Verus and proved against its contracts:

- `src/socket.rs` - the depth-server frame protocol (`parse_frames`), the
  last-known depth cache (`DepthState`), the reader's decisions
  (`apply_chunk`, `reader_step`), and the bounded drop-oldest subscriber queues
  (`EventReceiver`), with the laws they keep.
- `src/hid.rs` - HID usage codes and DB key names (`Key`).
- `src/keymap.rs` - the FUN60 Ultra matrix-name table and the matrix-index
  to HID-code tables.
- `src/ffi.rs` - SDK enums and result codes, and the device ID.
- `src/state.rs` - the plugin's keymap, reverse code lookup, pressed-key
  report, full-travel setting (`parse_u16`) and the answers and check
  order of the SDK entry points.

`app/` holds what cannot be verified: the `extern "C"` exports, the socket
connection and reader thread, the blocking receives on subscriber queues,
and the float conversions.
