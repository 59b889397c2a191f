//! Key names as a configuration writes them.

use crate::keys::{
    KeyCode, KEY_0, KEY_1, KEY_102ND, KEY_2, KEY_3, KEY_4, KEY_5, KEY_6, KEY_7, KEY_8, KEY_9, KEY_A, KEY_APOSTROPHE, KEY_B, KEY_BACKSLASH, KEY_BACKSPACE, KEY_C, KEY_COMMA, KEY_COMPOSE, KEY_D, KEY_DELETE, KEY_DOT, KEY_DOWN, KEY_E, KEY_END, KEY_ENTER, KEY_EQUAL, KEY_ESC, KEY_F, KEY_F1, KEY_F10, KEY_F11, KEY_F12, KEY_F13, KEY_F14, KEY_F15, KEY_F16, KEY_F17, KEY_F18, KEY_F19, KEY_F2, KEY_F20, KEY_F21, KEY_F22, KEY_F23, KEY_F24, KEY_F3, KEY_F4, KEY_F5, KEY_F6, KEY_F7, KEY_F8, KEY_F9, KEY_G, KEY_GRAVE, KEY_H, KEY_HELP, KEY_HOME, KEY_I, KEY_INSERT, KEY_J, KEY_K, KEY_KP0, KEY_KP1, KEY_KP2, KEY_KP3, KEY_KP4, KEY_KP5, KEY_KP6, KEY_KP7, KEY_KP8, KEY_KP9, KEY_KPASTERISK, KEY_KPCOMMA, KEY_KPDOT, KEY_KPENTER, KEY_KPEQUAL, KEY_KPMINUS, KEY_KPPLUS, KEY_KPSLASH, KEY_L, KEY_LEFT, KEY_LEFTBRACE, KEY_M, KEY_MINUS, KEY_MUTE, KEY_N, KEY_NUMLOCK, KEY_O, KEY_P, KEY_PAGEDOWN, KEY_PAGEUP, KEY_PAUSE, KEY_POWER, KEY_Q, KEY_R, KEY_RIGHT, KEY_RIGHTBRACE, KEY_S, KEY_SCROLLLOCK, KEY_SEMICOLON, KEY_SLASH, KEY_SPACE, KEY_SYSRQ, KEY_T, KEY_TAB, KEY_U, KEY_UP, KEY_V, KEY_VOLUMEDOWN, KEY_VOLUMEUP, KEY_W, KEY_X, KEY_Y, KEY_Z,
};
use crate::state::modifier::ModifierKey;
use crate::text::str_eq;
use vstd::prelude::*;

verus! {

/// The code of a letter key, by its configuration name.
pub open spec fn letter_named(name: Seq<char>) -> Option<u16> {
    if name == "a"@ {
        Some(KEY_A)
    } else if name == "b"@ {
        Some(KEY_B)
    } else if name == "c"@ {
        Some(KEY_C)
    } else if name == "d"@ {
        Some(KEY_D)
    } else if name == "e"@ {
        Some(KEY_E)
    } else if name == "f"@ {
        Some(KEY_F)
    } else if name == "g"@ {
        Some(KEY_G)
    } else if name == "h"@ {
        Some(KEY_H)
    } else if name == "i"@ {
        Some(KEY_I)
    } else if name == "j"@ {
        Some(KEY_J)
    } else if name == "k"@ {
        Some(KEY_K)
    } else if name == "l"@ {
        Some(KEY_L)
    } else if name == "m"@ {
        Some(KEY_M)
    } else if name == "n"@ {
        Some(KEY_N)
    } else if name == "o"@ {
        Some(KEY_O)
    } else if name == "p"@ {
        Some(KEY_P)
    } else if name == "q"@ {
        Some(KEY_Q)
    } else if name == "r"@ {
        Some(KEY_R)
    } else if name == "s"@ {
        Some(KEY_S)
    } else if name == "t"@ {
        Some(KEY_T)
    } else if name == "u"@ {
        Some(KEY_U)
    } else if name == "v"@ {
        Some(KEY_V)
    } else if name == "w"@ {
        Some(KEY_W)
    } else if name == "x"@ {
        Some(KEY_X)
    } else if name == "y"@ {
        Some(KEY_Y)
    } else if name == "z"@ {
        Some(KEY_Z)
    } else {
        None
    }
}

fn letter_code(name: &str) -> (code: Option<u16>)
    ensures
        code == letter_named(name@),
{
    if str_eq(name, "a") {
        Some(KEY_A)
    } else if str_eq(name, "b") {
        Some(KEY_B)
    } else if str_eq(name, "c") {
        Some(KEY_C)
    } else if str_eq(name, "d") {
        Some(KEY_D)
    } else if str_eq(name, "e") {
        Some(KEY_E)
    } else if str_eq(name, "f") {
        Some(KEY_F)
    } else if str_eq(name, "g") {
        Some(KEY_G)
    } else if str_eq(name, "h") {
        Some(KEY_H)
    } else if str_eq(name, "i") {
        Some(KEY_I)
    } else if str_eq(name, "j") {
        Some(KEY_J)
    } else if str_eq(name, "k") {
        Some(KEY_K)
    } else if str_eq(name, "l") {
        Some(KEY_L)
    } else if str_eq(name, "m") {
        Some(KEY_M)
    } else if str_eq(name, "n") {
        Some(KEY_N)
    } else if str_eq(name, "o") {
        Some(KEY_O)
    } else if str_eq(name, "p") {
        Some(KEY_P)
    } else if str_eq(name, "q") {
        Some(KEY_Q)
    } else if str_eq(name, "r") {
        Some(KEY_R)
    } else if str_eq(name, "s") {
        Some(KEY_S)
    } else if str_eq(name, "t") {
        Some(KEY_T)
    } else if str_eq(name, "u") {
        Some(KEY_U)
    } else if str_eq(name, "v") {
        Some(KEY_V)
    } else if str_eq(name, "w") {
        Some(KEY_W)
    } else if str_eq(name, "x") {
        Some(KEY_X)
    } else if str_eq(name, "y") {
        Some(KEY_Y)
    } else if str_eq(name, "z") {
        Some(KEY_Z)
    } else {
        None
    }
}

/// The code of a key of the number row, by its configuration name.
pub open spec fn digit_named(name: Seq<char>) -> Option<u16> {
    if name == "1"@ {
        Some(KEY_1)
    } else if name == "2"@ {
        Some(KEY_2)
    } else if name == "3"@ {
        Some(KEY_3)
    } else if name == "4"@ {
        Some(KEY_4)
    } else if name == "5"@ {
        Some(KEY_5)
    } else if name == "6"@ {
        Some(KEY_6)
    } else if name == "7"@ {
        Some(KEY_7)
    } else if name == "8"@ {
        Some(KEY_8)
    } else if name == "9"@ {
        Some(KEY_9)
    } else if name == "0"@ {
        Some(KEY_0)
    } else {
        None
    }
}

fn digit_code(name: &str) -> (code: Option<u16>)
    ensures
        code == digit_named(name@),
{
    if str_eq(name, "1") {
        Some(KEY_1)
    } else if str_eq(name, "2") {
        Some(KEY_2)
    } else if str_eq(name, "3") {
        Some(KEY_3)
    } else if str_eq(name, "4") {
        Some(KEY_4)
    } else if str_eq(name, "5") {
        Some(KEY_5)
    } else if str_eq(name, "6") {
        Some(KEY_6)
    } else if str_eq(name, "7") {
        Some(KEY_7)
    } else if str_eq(name, "8") {
        Some(KEY_8)
    } else if str_eq(name, "9") {
        Some(KEY_9)
    } else if str_eq(name, "0") {
        Some(KEY_0)
    } else {
        None
    }
}

/// The code of an editing key or a punctuation key, by its configuration name.
pub open spec fn control_or_symbol_named(name: Seq<char>) -> Option<u16> {
    if name == "return_or_enter"@ {
        Some(KEY_ENTER)
    } else if name == "escape"@ {
        Some(KEY_ESC)
    } else if name == "delete_or_backspace"@ {
        Some(KEY_BACKSPACE)
    } else if name == "delete_forward"@ {
        Some(KEY_DELETE)
    } else if name == "tab"@ {
        Some(KEY_TAB)
    } else if name == "spacebar"@ {
        Some(KEY_SPACE)
    } else if name == "hyphen"@ {
        Some(KEY_MINUS)
    } else if name == "equal_sign"@ {
        Some(KEY_EQUAL)
    } else if name == "open_bracket"@ {
        Some(KEY_LEFTBRACE)
    } else if name == "close_bracket"@ {
        Some(KEY_RIGHTBRACE)
    } else if name == "backslash"@ {
        Some(KEY_BACKSLASH)
    } else if name == "non_us_backslash"@ {
        Some(KEY_102ND)
    } else if name == "semicolon"@ {
        Some(KEY_SEMICOLON)
    } else if name == "quote"@ {
        Some(KEY_APOSTROPHE)
    } else if name == "grave_accent_and_tilde"@ {
        Some(KEY_GRAVE)
    } else if name == "comma"@ {
        Some(KEY_COMMA)
    } else if name == "period"@ {
        Some(KEY_DOT)
    } else if name == "slash"@ {
        Some(KEY_SLASH)
    } else if name == "application"@ {
        Some(KEY_COMPOSE)
    } else if name == "help"@ {
        Some(KEY_HELP)
    } else if name == "mute"@ {
        Some(KEY_MUTE)
    } else if name == "volume_decrement"@ {
        Some(KEY_VOLUMEDOWN)
    } else if name == "volume_increment"@ {
        Some(KEY_VOLUMEUP)
    } else if name == "power"@ {
        Some(KEY_POWER)
    } else {
        None
    }
}

fn control_or_symbol_code(name: &str) -> (code: Option<u16>)
    ensures
        code == control_or_symbol_named(name@),
{
    if str_eq(name, "return_or_enter") {
        Some(KEY_ENTER)
    } else if str_eq(name, "escape") {
        Some(KEY_ESC)
    } else if str_eq(name, "delete_or_backspace") {
        Some(KEY_BACKSPACE)
    } else if str_eq(name, "delete_forward") {
        Some(KEY_DELETE)
    } else if str_eq(name, "tab") {
        Some(KEY_TAB)
    } else if str_eq(name, "spacebar") {
        Some(KEY_SPACE)
    } else if str_eq(name, "hyphen") {
        Some(KEY_MINUS)
    } else if str_eq(name, "equal_sign") {
        Some(KEY_EQUAL)
    } else if str_eq(name, "open_bracket") {
        Some(KEY_LEFTBRACE)
    } else if str_eq(name, "close_bracket") {
        Some(KEY_RIGHTBRACE)
    } else if str_eq(name, "backslash") {
        Some(KEY_BACKSLASH)
    } else if str_eq(name, "non_us_backslash") {
        Some(KEY_102ND)
    } else if str_eq(name, "semicolon") {
        Some(KEY_SEMICOLON)
    } else if str_eq(name, "quote") {
        Some(KEY_APOSTROPHE)
    } else if str_eq(name, "grave_accent_and_tilde") {
        Some(KEY_GRAVE)
    } else if str_eq(name, "comma") {
        Some(KEY_COMMA)
    } else if str_eq(name, "period") {
        Some(KEY_DOT)
    } else if str_eq(name, "slash") {
        Some(KEY_SLASH)
    } else if str_eq(name, "application") {
        Some(KEY_COMPOSE)
    } else if str_eq(name, "help") {
        Some(KEY_HELP)
    } else if str_eq(name, "mute") {
        Some(KEY_MUTE)
    } else if str_eq(name, "volume_decrement") {
        Some(KEY_VOLUMEDOWN)
    } else if str_eq(name, "volume_increment") {
        Some(KEY_VOLUMEUP)
    } else if str_eq(name, "power") {
        Some(KEY_POWER)
    } else {
        None
    }
}

/// The code of a function key, by its configuration name.
pub open spec fn function_named(name: Seq<char>) -> Option<u16> {
    if name == "f1"@ {
        Some(KEY_F1)
    } else if name == "f2"@ {
        Some(KEY_F2)
    } else if name == "f3"@ {
        Some(KEY_F3)
    } else if name == "f4"@ {
        Some(KEY_F4)
    } else if name == "f5"@ {
        Some(KEY_F5)
    } else if name == "f6"@ {
        Some(KEY_F6)
    } else if name == "f7"@ {
        Some(KEY_F7)
    } else if name == "f8"@ {
        Some(KEY_F8)
    } else if name == "f9"@ {
        Some(KEY_F9)
    } else if name == "f10"@ {
        Some(KEY_F10)
    } else if name == "f11"@ {
        Some(KEY_F11)
    } else if name == "f12"@ {
        Some(KEY_F12)
    } else if name == "f13"@ {
        Some(KEY_F13)
    } else if name == "f14"@ {
        Some(KEY_F14)
    } else if name == "f15"@ {
        Some(KEY_F15)
    } else if name == "f16"@ {
        Some(KEY_F16)
    } else if name == "f17"@ {
        Some(KEY_F17)
    } else if name == "f18"@ {
        Some(KEY_F18)
    } else if name == "f19"@ {
        Some(KEY_F19)
    } else if name == "f20"@ {
        Some(KEY_F20)
    } else if name == "f21"@ {
        Some(KEY_F21)
    } else if name == "f22"@ {
        Some(KEY_F22)
    } else if name == "f23"@ {
        Some(KEY_F23)
    } else if name == "f24"@ {
        Some(KEY_F24)
    } else {
        None
    }
}

fn function_code(name: &str) -> (code: Option<u16>)
    ensures
        code == function_named(name@),
{
    if str_eq(name, "f1") {
        Some(KEY_F1)
    } else if str_eq(name, "f2") {
        Some(KEY_F2)
    } else if str_eq(name, "f3") {
        Some(KEY_F3)
    } else if str_eq(name, "f4") {
        Some(KEY_F4)
    } else if str_eq(name, "f5") {
        Some(KEY_F5)
    } else if str_eq(name, "f6") {
        Some(KEY_F6)
    } else if str_eq(name, "f7") {
        Some(KEY_F7)
    } else if str_eq(name, "f8") {
        Some(KEY_F8)
    } else if str_eq(name, "f9") {
        Some(KEY_F9)
    } else if str_eq(name, "f10") {
        Some(KEY_F10)
    } else if str_eq(name, "f11") {
        Some(KEY_F11)
    } else if str_eq(name, "f12") {
        Some(KEY_F12)
    } else if str_eq(name, "f13") {
        Some(KEY_F13)
    } else if str_eq(name, "f14") {
        Some(KEY_F14)
    } else if str_eq(name, "f15") {
        Some(KEY_F15)
    } else if str_eq(name, "f16") {
        Some(KEY_F16)
    } else if str_eq(name, "f17") {
        Some(KEY_F17)
    } else if str_eq(name, "f18") {
        Some(KEY_F18)
    } else if str_eq(name, "f19") {
        Some(KEY_F19)
    } else if str_eq(name, "f20") {
        Some(KEY_F20)
    } else if str_eq(name, "f21") {
        Some(KEY_F21)
    } else if str_eq(name, "f22") {
        Some(KEY_F22)
    } else if str_eq(name, "f23") {
        Some(KEY_F23)
    } else if str_eq(name, "f24") {
        Some(KEY_F24)
    } else {
        None
    }
}

/// The code of a navigation key, by its configuration name.
pub open spec fn navigation_named(name: Seq<char>) -> Option<u16> {
    if name == "print_screen"@ {
        Some(KEY_SYSRQ)
    } else if name == "scroll_lock"@ {
        Some(KEY_SCROLLLOCK)
    } else if name == "pause"@ {
        Some(KEY_PAUSE)
    } else if name == "insert"@ {
        Some(KEY_INSERT)
    } else if name == "home"@ {
        Some(KEY_HOME)
    } else if name == "page_up"@ {
        Some(KEY_PAGEUP)
    } else if name == "end"@ {
        Some(KEY_END)
    } else if name == "page_down"@ {
        Some(KEY_PAGEDOWN)
    } else if name == "right_arrow"@ {
        Some(KEY_RIGHT)
    } else if name == "left_arrow"@ {
        Some(KEY_LEFT)
    } else if name == "down_arrow"@ {
        Some(KEY_DOWN)
    } else if name == "up_arrow"@ {
        Some(KEY_UP)
    } else {
        None
    }
}

fn navigation_code(name: &str) -> (code: Option<u16>)
    ensures
        code == navigation_named(name@),
{
    if str_eq(name, "print_screen") {
        Some(KEY_SYSRQ)
    } else if str_eq(name, "scroll_lock") {
        Some(KEY_SCROLLLOCK)
    } else if str_eq(name, "pause") {
        Some(KEY_PAUSE)
    } else if str_eq(name, "insert") {
        Some(KEY_INSERT)
    } else if str_eq(name, "home") {
        Some(KEY_HOME)
    } else if str_eq(name, "page_up") {
        Some(KEY_PAGEUP)
    } else if str_eq(name, "end") {
        Some(KEY_END)
    } else if str_eq(name, "page_down") {
        Some(KEY_PAGEDOWN)
    } else if str_eq(name, "right_arrow") {
        Some(KEY_RIGHT)
    } else if str_eq(name, "left_arrow") {
        Some(KEY_LEFT)
    } else if str_eq(name, "down_arrow") {
        Some(KEY_DOWN)
    } else if str_eq(name, "up_arrow") {
        Some(KEY_UP)
    } else {
        None
    }
}

/// The code of a key of the number pad, by its configuration name.
pub open spec fn keypad_named(name: Seq<char>) -> Option<u16> {
    if name == "keypad_num_lock"@ {
        Some(KEY_NUMLOCK)
    } else if name == "keypad_slash"@ {
        Some(KEY_KPSLASH)
    } else if name == "keypad_asterisk"@ {
        Some(KEY_KPASTERISK)
    } else if name == "keypad_hyphen"@ {
        Some(KEY_KPMINUS)
    } else if name == "keypad_plus"@ {
        Some(KEY_KPPLUS)
    } else if name == "keypad_enter"@ {
        Some(KEY_KPENTER)
    } else if name == "keypad_1"@ {
        Some(KEY_KP1)
    } else if name == "keypad_2"@ {
        Some(KEY_KP2)
    } else if name == "keypad_3"@ {
        Some(KEY_KP3)
    } else if name == "keypad_4"@ {
        Some(KEY_KP4)
    } else if name == "keypad_5"@ {
        Some(KEY_KP5)
    } else if name == "keypad_6"@ {
        Some(KEY_KP6)
    } else if name == "keypad_7"@ {
        Some(KEY_KP7)
    } else if name == "keypad_8"@ {
        Some(KEY_KP8)
    } else if name == "keypad_9"@ {
        Some(KEY_KP9)
    } else if name == "keypad_0"@ {
        Some(KEY_KP0)
    } else if name == "keypad_period"@ {
        Some(KEY_KPDOT)
    } else if name == "keypad_equal_sign"@ {
        Some(KEY_KPEQUAL)
    } else if name == "keypad_comma"@ {
        Some(KEY_KPCOMMA)
    } else {
        None
    }
}

fn keypad_code(name: &str) -> (code: Option<u16>)
    ensures
        code == keypad_named(name@),
{
    if str_eq(name, "keypad_num_lock") {
        Some(KEY_NUMLOCK)
    } else if str_eq(name, "keypad_slash") {
        Some(KEY_KPSLASH)
    } else if str_eq(name, "keypad_asterisk") {
        Some(KEY_KPASTERISK)
    } else if str_eq(name, "keypad_hyphen") {
        Some(KEY_KPMINUS)
    } else if str_eq(name, "keypad_plus") {
        Some(KEY_KPPLUS)
    } else if str_eq(name, "keypad_enter") {
        Some(KEY_KPENTER)
    } else if str_eq(name, "keypad_1") {
        Some(KEY_KP1)
    } else if str_eq(name, "keypad_2") {
        Some(KEY_KP2)
    } else if str_eq(name, "keypad_3") {
        Some(KEY_KP3)
    } else if str_eq(name, "keypad_4") {
        Some(KEY_KP4)
    } else if str_eq(name, "keypad_5") {
        Some(KEY_KP5)
    } else if str_eq(name, "keypad_6") {
        Some(KEY_KP6)
    } else if str_eq(name, "keypad_7") {
        Some(KEY_KP7)
    } else if str_eq(name, "keypad_8") {
        Some(KEY_KP8)
    } else if str_eq(name, "keypad_9") {
        Some(KEY_KP9)
    } else if str_eq(name, "keypad_0") {
        Some(KEY_KP0)
    } else if str_eq(name, "keypad_period") {
        Some(KEY_KPDOT)
    } else if str_eq(name, "keypad_equal_sign") {
        Some(KEY_KPEQUAL)
    } else if str_eq(name, "keypad_comma") {
        Some(KEY_KPCOMMA)
    } else {
        None
    }
}

impl KeyCode {
    /// The key that a configuration name stands for. The groups of names
    /// are tried in turn: letters, the number row, editing and
    /// punctuation keys, function keys, navigation keys, the number pad,
    /// and last the modifier keys under each of their names.
    pub open spec fn named(name: Seq<char>) -> Option<KeyCode> {
        if let Some(code) = letter_named(name) {
            Some(KeyCode { code })
        } else if let Some(code) = digit_named(name) {
            Some(KeyCode { code })
        } else if let Some(code) = control_or_symbol_named(name) {
            Some(KeyCode { code })
        } else if let Some(code) = function_named(name) {
            Some(KeyCode { code })
        } else if let Some(code) = navigation_named(name) {
            Some(KeyCode { code })
        } else if let Some(code) = keypad_named(name) {
            Some(KeyCode { code })
        } else if let Some(modifier) = ModifierKey::named(name) {
            Some(KeyCode { code: modifier.code() })
        } else {
            None
        }
    }

    /// Reads a key from its configuration name; `None` for a name that
    /// names no key.
    pub fn from_kb_key_code(key_code: &str) -> (key: Option<KeyCode>)
        ensures
            key == Self::named(key_code@),
    {
        if let Some(code) = letter_code(key_code) {
            Some(KeyCode { code })
        } else if let Some(code) = digit_code(key_code) {
            Some(KeyCode { code })
        } else if let Some(code) = control_or_symbol_code(key_code) {
            Some(KeyCode { code })
        } else if let Some(code) = function_code(key_code) {
            Some(KeyCode { code })
        } else if let Some(code) = navigation_code(key_code) {
            Some(KeyCode { code })
        } else if let Some(code) = keypad_code(key_code) {
            Some(KeyCode { code })
        } else if let Some(modifier) = ModifierKey::from_kb_key_code(key_code) {
            modifier.as_key()
        } else {
            None
        }
    }
}

} // verus!
