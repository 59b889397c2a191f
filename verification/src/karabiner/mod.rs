//! The configuration as it is written, and the names it uses.

pub mod config;
pub mod key_code;
pub mod modifier;

pub use config::{
    ConfigError, KBComplexModifications, KBComplexRule, KBCondition, KBConditionKind, KBConfig,
    KBFromDefinition, KBFromModifiers, KBManipulator, KBManipulatorKind, KBProfile,
    KBSimpleModification, KBSimpleRule, KBSimultaneousOptions, KBToDefinition,
};
pub use modifier::KBModifier;
