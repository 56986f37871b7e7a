//! Verified core of the FUN60 Ultra analog plugin: the depth-server frame
//! protocol, the last-known depth cache, subscriber queues, the HID key
//! tables and the small decisions of the Wooting Analog SDK plugin ABI.

pub mod ffi;
pub mod hid;
pub mod keymap;
pub mod socket;
pub mod state;
