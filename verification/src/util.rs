//! Small helpers on events and names.

use crate::constants::KARABINUX_DEVICE_NAME;
use crate::event::{InputEvent, TimeVal, EV_KEY, EV_SYN};
use crate::keys::{KeyCode, KEY_BACKSPACE};
use vstd::prelude::*;

verus! {

/// The code of the synchronization event that ends a batch.
pub const SYN_REPORT: u16 = 0;

/// The key that an event's type and code name, if the type is that of a
/// key event.
pub fn key_from_event_code(event_type: u16, event_code: u16) -> (key: Option<KeyCode>)
    ensures
        key == if event_type == EV_KEY {
            Some(KeyCode { code: event_code })
        } else {
            None
        },
{
    if event_type == EV_KEY {
        Some(KeyCode { code: event_code })
    } else {
        None
    }
}

/// The synchronization event that is written after a batch, with the
/// given time on it.
pub fn sync_event(time: &TimeVal) -> (event: InputEvent)
    ensures
        event == (InputEvent {
            time: *time,
            event_type: EV_SYN,
            event_code: SYN_REPORT,
            value: 0,
        }),
{
    InputEvent::new(time, EV_SYN, SYN_REPORT, 0)
}

/// Whether a string begins with another.
///
/// Calls `str::starts_with` of std with a string as the pattern, which
/// std documents as true exactly when the pattern is a prefix of the
/// string. The contract says that over the two views; it is taken on
/// trust.
#[verifier::external_body]
fn starts_with(name: &str, prefix: &str) -> (yes: bool)
    ensures
        yes == prefix@.is_prefix_of(name@),
{
    name.starts_with(prefix)
}

/// Whether a device of this name is a virtual output device of this
/// program: its name begins with `KARABINUX_DEVICE_NAME`.
pub fn is_karabinux_device(name: &str) -> (yes: bool)
    ensures
        yes == KARABINUX_DEVICE_NAME@.is_prefix_of(name@),
{
    starts_with(name, KARABINUX_DEVICE_NAME)
}

/// Watches for the way out of a debugging session: backspace pressed
/// twice in a row.
#[derive(Debug, Copy, Clone, PartialEq, Eq, Structural)]
pub struct EscapeWatch {
    /// The code of the key that was pressed last, 0 at the start.
    pub last_pressed: u16,
}

impl EscapeWatch {
    /// Whether an event is the press of a key.
    pub open spec fn is_press(event: InputEvent) -> bool {
        event.event_type == EV_KEY && event.value == 1
    }

    /// Whether an event asks for the way out: it is a press of
    /// backspace, and the press before it was one too.
    pub open spec fn asks_out(self, event: InputEvent) -> bool {
        Self::is_press(event) && event.event_code == KEY_BACKSPACE && self.last_pressed
            == KEY_BACKSPACE
    }

    /// The watch after an event: a press that does not ask for the way
    /// out is remembered, and nothing else is.
    pub open spec fn after(self, event: InputEvent) -> EscapeWatch {
        if Self::is_press(event) && !self.asks_out(event) {
            EscapeWatch { last_pressed: event.event_code }
        } else {
            self
        }
    }

    pub fn new() -> (watch: EscapeWatch)
        ensures
            watch.last_pressed == 0,
    {
        EscapeWatch { last_pressed: 0 }
    }

    /// Takes note of an event, and says whether it asks for the way
    /// out.
    pub fn observe(&mut self, event: &InputEvent) -> (out: bool)
        ensures
            out == old(self).asks_out(*event),
            *final(self) == old(self).after(*event),
    {
        if event.event_type == EV_KEY && event.value == 1 {
            if event.event_code == KEY_BACKSPACE && self.last_pressed == KEY_BACKSPACE {
                return true;
            }
            self.last_pressed = event.event_code;
        }
        false
    }
}

} // verus!
