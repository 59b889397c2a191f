//! The rules in the form the engine runs them, and the engine's state.

pub mod complex_manipulator;
pub mod from_event;
pub mod from_modifiers;
pub mod instance;
pub mod laws;
pub mod manager;
pub mod modifier;
pub mod modifier_state;
pub mod pressed_set;
pub mod sequence;
pub mod simple_manipulator;
pub mod to_event;

pub use complex_manipulator::{ComplexManipulator, ManipulationResult};
pub use from_event::FromEvent;
pub use from_modifiers::FromModifiers;
pub use instance::ManipulationInstance;
pub use manager::{MappedEvents, StateManager};
pub use modifier::ModifierKey;
pub use modifier_state::ModifierState;
pub use simple_manipulator::SimpleManipulator;
pub use to_event::ToEvent;
