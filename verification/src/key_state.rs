//! How the `value` field of a raw input event is read.

use vstd::prelude::*;

verus! {

/// What a key did, as told by the `value` of a raw key event.
#[derive(Debug, Copy, Clone, Eq, Hash, PartialEq, Structural)]
pub enum KeyState {
    /// The key was pressed
    Pressed,
    /// The key was released
    Released,
    /// The key fired an autorepeat event
    Autorepeat,
    /// The key event has an unknown value
    Unknown(i32),
}

impl KeyState {
    /// The state that a raw value stands for: 0 is a release, 1 a press,
    /// 2 an autorepeat, and any other value is kept as it came.
    pub open spec fn of_value(value: i32) -> KeyState {
        if value == 0 {
            KeyState::Released
        } else if value == 1 {
            KeyState::Pressed
        } else if value == 2 {
            KeyState::Autorepeat
        } else {
            KeyState::Unknown(value)
        }
    }

    /// The raw value that a state is written as.
    pub open spec fn value(self) -> i32 {
        match self {
            KeyState::Released => 0,
            KeyState::Pressed => 1,
            KeyState::Autorepeat => 2,
            KeyState::Unknown(value) => value,
        }
    }

    /// Reading a raw value and writing it again gives the value back.
    /// The other way round holds of every state but `Unknown(0)`,
    /// `Unknown(1)` and `Unknown(2)`, which no raw value is read as.
    pub proof fn lemma_value_round_trip(self, value: i32)
        ensures
            Self::of_value(value).value() == value,
            !(self matches KeyState::Unknown(v) && 0 <= v <= 2) ==> Self::of_value(self.value())
                == self,
    {
    }
}

impl From<i32> for KeyState {
    fn from(value: i32) -> (state: KeyState) {
        if value == 0 {
            KeyState::Released
        } else if value == 1 {
            KeyState::Pressed
        } else if value == 2 {
            KeyState::Autorepeat
        } else {
            KeyState::Unknown(value)
        }
    }
}

impl vstd::std_specs::convert::FromSpecImpl<i32> for KeyState {
    open spec fn obeys_from_spec() -> bool {
        true
    }

    open spec fn from_spec(value: i32) -> KeyState {
        KeyState::of_value(value)
    }
}

impl From<KeyState> for i32 {
    fn from(key_state: KeyState) -> (value: i32) {
        match key_state {
            KeyState::Released => 0,
            KeyState::Pressed => 1,
            KeyState::Autorepeat => 2,
            KeyState::Unknown(value) => value,
        }
    }
}

impl vstd::std_specs::convert::FromSpecImpl<KeyState> for i32 {
    open spec fn obeys_from_spec() -> bool {
        true
    }

    open spec fn from_spec(key_state: KeyState) -> i32 {
        key_state.value()
    }
}

} // verus!
