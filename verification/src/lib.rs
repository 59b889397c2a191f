//! A keyboard remapping engine: key events in, remapped key events out.
//!
//! The engine takes the rules of one profile of a Karabiner
//! configuration and then maps input events one by one. For each event
//! it hands back the events to write to the output device, in order,
//! and the commands that the rules want run. It reads no device, writes
//! none and starts no process: that is the caller's part.
//!
//! Only presses and releases are worked on. An autorepeat, or an event
//! with an unknown value, is handed back as it came and changes
//! nothing. What a lazy step of a rule sends is held back and handed
//! back ahead of what the next press or release becomes.
//!
//! * [`keys`], [`key_state`], [`event`]: keys, what they do, and events.
//! * [`karabiner`]: the configuration as it is written, and its names
//!   for keys and modifiers.
//! * [`state`]: the rules as the engine runs them, the modifier keys
//!   that are down, and the engine itself, [`state::StateManager`].
//!   What holds of the engine for every state and every event is proved
//!   in [`state::laws`].

pub mod constants;
pub mod event;
pub mod karabiner;
pub mod key_state;
pub mod keys;
pub mod state;
mod text;
pub mod util;
