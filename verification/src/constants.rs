//! Names and lists that the whole crate shares.

use crate::keys::{
    KEY_CAPSLOCK, KEY_LEFTALT, KEY_LEFTCTRL, KEY_LEFTMETA, KEY_LEFTSHIFT, KEY_RIGHTALT,
    KEY_RIGHTCTRL, KEY_RIGHTMETA, KEY_RIGHTSHIFT,
};
use vstd::prelude::*;

verus! {

/// How the name of the virtual output device begins.
pub const KARABINUX_DEVICE_NAME: &'static str = "KarabinuxDevice: ";

/// The codes of the nine modifier keys.
pub const ALL_MODIFIER_KEYS: [u16; 9] = [
    KEY_CAPSLOCK,
    KEY_LEFTALT,
    KEY_RIGHTALT,
    KEY_LEFTMETA,
    KEY_RIGHTMETA,
    KEY_LEFTCTRL,
    KEY_RIGHTCTRL,
    KEY_LEFTSHIFT,
    KEY_RIGHTSHIFT,
];

} // verus!
