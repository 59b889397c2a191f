//! Events as they come from the device and as the engine works on them.

use crate::key_state::KeyState;
use crate::keys::KeyCode;
use vstd::prelude::*;

verus! {

/// The type of a synchronization event.
pub const EV_SYN: u16 = 0;

/// The type of a key event.
pub const EV_KEY: u16 = 1;

/// The type of a miscellaneous event.
pub const EV_MSC: u16 = 4;

/// The time of an event: seconds, and microseconds within the second.
#[derive(Debug, Copy, Clone, PartialEq, Eq, Hash, Structural)]
pub struct TimeVal {
    pub tv_sec: i64,
    pub tv_usec: i64,
}

impl TimeVal {
    pub fn new(tv_sec: i64, tv_usec: i64) -> (time: TimeVal)
        ensures
            time == (TimeVal { tv_sec, tv_usec }),
    {
        TimeVal { tv_sec, tv_usec }
    }
}

/// An input event as the kernel hands it over: when, of what type, with
/// which code and which value.
#[derive(Debug, Copy, Clone, PartialEq, Eq, Hash, Structural)]
pub struct InputEvent {
    pub time: TimeVal,
    pub event_type: u16,
    pub event_code: u16,
    pub value: i32,
}

impl InputEvent {
    pub fn new(time: &TimeVal, event_type: u16, event_code: u16, value: i32) -> (event: InputEvent)
        ensures
            event == (InputEvent { time: *time, event_type, event_code, value }),
    {
        InputEvent { time: *time, event_type, event_code, value }
    }

    /// Whether this is an event of a key.
    pub open spec fn is_key(self) -> bool {
        self.event_type == EV_KEY
    }
}

/// What the reading side hands to the engine.
#[derive(Debug, Copy, Clone, PartialEq, Eq, Structural)]
pub enum Event {
    Timeout,
    InputEvent(InputEvent),
}

/// One key doing one thing at one time.
#[derive(Debug, Copy, Clone, PartialEq, Eq, Structural)]
pub struct KeyEvent {
    pub key: KeyCode,
    pub state: KeyState,
    pub time: TimeVal,
    /// Set on an event that a lazy step of a rule made. The engine
    /// holds such an event back until the next press or release.
    pub lazy: bool,
}

impl KeyEvent {
    pub fn new(time: &TimeVal, key: &KeyCode, state: KeyState, lazy: bool) -> (event: KeyEvent)
        ensures
            event == (KeyEvent { key: *key, state, time: *time, lazy }),
    {
        KeyEvent { key: *key, time: *time, state, lazy }
    }

    /// The key event that an input event of a key tells of.
    pub open spec fn of_input(event: InputEvent) -> KeyEvent {
        KeyEvent {
            key: KeyCode { code: event.event_code },
            state: KeyState::of_value(event.value),
            time: event.time,
            lazy: false,
        }
    }

    /// The input event that tells of this key event. Whether the event
    /// is lazy is not written.
    pub open spec fn as_input(self) -> InputEvent {
        InputEvent {
            time: self.time,
            event_type: EV_KEY,
            event_code: self.key.code,
            value: self.state.value(),
        }
    }

    /// Reads a key event from an input event of a key.
    pub fn from_event(event: InputEvent) -> (key_event: KeyEvent)
        requires
            event.is_key(),
        ensures
            key_event == Self::of_input(event),
    {
        KeyEvent {
            key: KeyCode { code: event.event_code },
            state: KeyState::from(event.value),
            time: event.time,
            lazy: false,
        }
    }

    /// Writes this key event as an input event.
    pub fn create_event(&self) -> (event: InputEvent)
        ensures
            event == self.as_input(),
    {
        InputEvent {
            time: self.time,
            event_type: EV_KEY,
            event_code: self.key.code,
            value: i32::from(self.state),
        }
    }

    /// What is read from a written key event is the event again, but for
    /// the lazy mark, and but for a state that no value is read as.
    pub proof fn lemma_input_round_trip(self)
        requires
            !(self.state matches KeyState::Unknown(v) && 0 <= v <= 2),
        ensures
            self.as_input().is_key(),
            Self::of_input(self.as_input()) == (KeyEvent { lazy: false, ..self }),
    {
    }
}

} // verus!
