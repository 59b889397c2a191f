//! The keys that count as modifiers.

use crate::keys::{
    KeyCode, KEY_CAPSLOCK, KEY_LEFTALT, KEY_LEFTCTRL, KEY_LEFTMETA, KEY_LEFTSHIFT, KEY_RIGHTALT,
    KEY_RIGHTCTRL, KEY_RIGHTMETA, KEY_RIGHTSHIFT,
};
use crate::text::str_eq;
use vstd::prelude::*;

verus! {

/// A modifier key: one of the nine physical keys whose state decides
/// whether a rule applies.
#[derive(Debug, Copy, Clone, Eq, PartialEq, Hash, Structural)]
pub enum ModifierKey {
    Capslock,
    LeftAlt,
    RightAlt,
    LeftMeta,
    RightMeta,
    LeftShift,
    RightShift,
    LeftControl,
    RightControl,
}

impl ModifierKey {
    /// Every modifier key.
    pub const VARIANTS: [ModifierKey; 9] = [
        ModifierKey::Capslock,
        ModifierKey::LeftAlt,
        ModifierKey::RightAlt,
        ModifierKey::LeftMeta,
        ModifierKey::RightMeta,
        ModifierKey::LeftShift,
        ModifierKey::RightShift,
        ModifierKey::LeftControl,
        ModifierKey::RightControl,
    ];

    /// Every modifier key, in the order in which the engine enumerates
    /// them.
    pub open spec fn all() -> Seq<ModifierKey> {
        seq![
            ModifierKey::Capslock,
            ModifierKey::LeftAlt,
            ModifierKey::RightAlt,
            ModifierKey::LeftMeta,
            ModifierKey::RightMeta,
            ModifierKey::LeftShift,
            ModifierKey::RightShift,
            ModifierKey::LeftControl,
            ModifierKey::RightControl,
        ]
    }

    /// The key code of a modifier key.
    pub open spec fn code(self) -> u16 {
        match self {
            ModifierKey::Capslock => KEY_CAPSLOCK,
            ModifierKey::LeftAlt => KEY_LEFTALT,
            ModifierKey::RightAlt => KEY_RIGHTALT,
            ModifierKey::LeftMeta => KEY_LEFTMETA,
            ModifierKey::RightMeta => KEY_RIGHTMETA,
            ModifierKey::LeftShift => KEY_LEFTSHIFT,
            ModifierKey::RightShift => KEY_RIGHTSHIFT,
            ModifierKey::LeftControl => KEY_LEFTCTRL,
            ModifierKey::RightControl => KEY_RIGHTCTRL,
        }
    }

    /// The modifier key with a given key code, if the code is that of a
    /// modifier.
    pub open spec fn of_code(code: u16) -> Option<ModifierKey> {
        if code == KEY_CAPSLOCK {
            Some(ModifierKey::Capslock)
        } else if code == KEY_LEFTALT {
            Some(ModifierKey::LeftAlt)
        } else if code == KEY_RIGHTALT {
            Some(ModifierKey::RightAlt)
        } else if code == KEY_LEFTMETA {
            Some(ModifierKey::LeftMeta)
        } else if code == KEY_RIGHTMETA {
            Some(ModifierKey::RightMeta)
        } else if code == KEY_LEFTSHIFT {
            Some(ModifierKey::LeftShift)
        } else if code == KEY_RIGHTSHIFT {
            Some(ModifierKey::RightShift)
        } else if code == KEY_LEFTCTRL {
            Some(ModifierKey::LeftControl)
        } else if code == KEY_RIGHTCTRL {
            Some(ModifierKey::RightControl)
        } else {
            None
        }
    }

    /// The modifier key that a configuration name stands for. Alt and
    /// option name the same key, and so do gui and command.
    pub open spec fn named(name: Seq<char>) -> Option<ModifierKey> {
        if name == "caps_lock"@ {
            Some(ModifierKey::Capslock)
        } else if name == "left_alt"@ || name == "left_option"@ {
            Some(ModifierKey::LeftAlt)
        } else if name == "right_alt"@ || name == "right_option"@ {
            Some(ModifierKey::RightAlt)
        } else if name == "left_gui"@ || name == "left_command"@ {
            Some(ModifierKey::LeftMeta)
        } else if name == "right_gui"@ || name == "right_command"@ {
            Some(ModifierKey::RightMeta)
        } else if name == "left_shift"@ {
            Some(ModifierKey::LeftShift)
        } else if name == "right_shift"@ {
            Some(ModifierKey::RightShift)
        } else if name == "left_control"@ {
            Some(ModifierKey::LeftControl)
        } else if name == "right_control"@ {
            Some(ModifierKey::RightControl)
        } else {
            None
        }
    }

    /// Every modifier key has a code of its own, and the code leads back
    /// to the key; a code that leads to a key is that key's code.
    pub proof fn lemma_code_round_trip(self, code: u16)
        ensures
            Self::of_code(self.code()) == Some(self),
            Self::of_code(code) == Some(self) ==> self.code() == code,
    {
    }

    /// `all()` lists each modifier key, once.
    pub proof fn lemma_all_complete(self)
        ensures
            Self::all().contains(self),
            Self::all().no_duplicates(),
            Self::all().len() == 9,
    {
        let all = Self::all();
        match self {
            ModifierKey::Capslock => assert(all[0] == self),
            ModifierKey::LeftAlt => assert(all[1] == self),
            ModifierKey::RightAlt => assert(all[2] == self),
            ModifierKey::LeftMeta => assert(all[3] == self),
            ModifierKey::RightMeta => assert(all[4] == self),
            ModifierKey::LeftShift => assert(all[5] == self),
            ModifierKey::RightShift => assert(all[6] == self),
            ModifierKey::LeftControl => assert(all[7] == self),
            ModifierKey::RightControl => assert(all[8] == self),
        }
    }

    /// The modifier keys as a vector, in enumeration order.
    pub fn variants() -> (all: Vec<ModifierKey>)
        ensures
            all@ == Self::all(),
    {
        let all = vec![
            ModifierKey::Capslock,
            ModifierKey::LeftAlt,
            ModifierKey::RightAlt,
            ModifierKey::LeftMeta,
            ModifierKey::RightMeta,
            ModifierKey::LeftShift,
            ModifierKey::RightShift,
            ModifierKey::LeftControl,
            ModifierKey::RightControl,
        ];
        assert(all@ =~= Self::all());
        all
    }

    /// The key that this modifier is on the keyboard. Every modifier has
    /// one.
    pub fn as_key(self) -> (key: Option<KeyCode>)
        ensures
            key == Some(KeyCode { code: self.code() }),
    {
        let code: u16 = match self {
            ModifierKey::Capslock => KEY_CAPSLOCK,
            ModifierKey::LeftAlt => KEY_LEFTALT,
            ModifierKey::RightAlt => KEY_RIGHTALT,
            ModifierKey::LeftMeta => KEY_LEFTMETA,
            ModifierKey::RightMeta => KEY_RIGHTMETA,
            ModifierKey::LeftShift => KEY_LEFTSHIFT,
            ModifierKey::RightShift => KEY_RIGHTSHIFT,
            ModifierKey::LeftControl => KEY_LEFTCTRL,
            ModifierKey::RightControl => KEY_RIGHTCTRL,
        };
        Some(KeyCode { code })
    }

    /// The modifier that a key is, or `None` for any other key.
    pub fn from_key(key: &KeyCode) -> (modifier: Option<ModifierKey>)
        ensures
            modifier == Self::of_code(key.code),
    {
        let code: u16 = key.code;
        if code == KEY_CAPSLOCK {
            Some(ModifierKey::Capslock)
        } else if code == KEY_LEFTALT {
            Some(ModifierKey::LeftAlt)
        } else if code == KEY_RIGHTALT {
            Some(ModifierKey::RightAlt)
        } else if code == KEY_LEFTMETA {
            Some(ModifierKey::LeftMeta)
        } else if code == KEY_RIGHTMETA {
            Some(ModifierKey::RightMeta)
        } else if code == KEY_LEFTSHIFT {
            Some(ModifierKey::LeftShift)
        } else if code == KEY_RIGHTSHIFT {
            Some(ModifierKey::RightShift)
        } else if code == KEY_LEFTCTRL {
            Some(ModifierKey::LeftControl)
        } else if code == KEY_RIGHTCTRL {
            Some(ModifierKey::RightControl)
        } else {
            None
        }
    }

    /// Whether a key is one of the nine modifier keys.
    pub fn is_modifier(key: &KeyCode) -> (yes: bool)
        ensures
            yes == Self::of_code(key.code).is_some(),
    {
        ModifierKey::from_key(key).is_some()
    }

    /// Reads a modifier key from its configuration name; `None` for a
    /// name that names no modifier key.
    pub fn from_kb_key_code(key_code: &str) -> (modifier: Option<ModifierKey>)
        ensures
            modifier == Self::named(key_code@),
    {
        if str_eq(key_code, "caps_lock") {
            Some(ModifierKey::Capslock)
        } else if str_eq(key_code, "left_alt") || str_eq(key_code, "left_option") {
            Some(ModifierKey::LeftAlt)
        } else if str_eq(key_code, "right_alt") || str_eq(key_code, "right_option") {
            Some(ModifierKey::RightAlt)
        } else if str_eq(key_code, "left_gui") || str_eq(key_code, "left_command") {
            Some(ModifierKey::LeftMeta)
        } else if str_eq(key_code, "right_gui") || str_eq(key_code, "right_command") {
            Some(ModifierKey::RightMeta)
        } else if str_eq(key_code, "left_shift") {
            Some(ModifierKey::LeftShift)
        } else if str_eq(key_code, "right_shift") {
            Some(ModifierKey::RightShift)
        } else if str_eq(key_code, "left_control") {
            Some(ModifierKey::LeftControl)
        } else if str_eq(key_code, "right_control") {
            Some(ModifierKey::RightControl)
        } else {
            None
        }
    }
}

} // verus!
