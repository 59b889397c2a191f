//! The key and the modifiers that a rule waits for.

use crate::karabiner::config::{ConfigError, KBFromDefinition};
use crate::karabiner::modifier::KBModifier;
use crate::keys::KeyCode;
use crate::state::from_modifiers::FromModifiers;
use crate::state::simple_manipulator::{key_name_error, read_key};
use vstd::prelude::*;

verus! {

/// What a rule waits for. A rule without a key waits for nothing.
#[derive(Debug)]
pub struct FromEvent {
    pub key: Option<KeyCode>,
    pub modifiers: FromModifiers,
}

impl FromEvent {
    /// The first error in the configuration of a `from`: that of its
    /// key name, if there is a name and it names no key, or else that
    /// of its modifier clause.
    pub open spec fn error_in(kb: KBFromDefinition) -> Option<ConfigError> {
        let key_error = match kb.key_code {
            Some(name) => key_name_error(name),
            None => None,
        };
        if key_error is Some {
            key_error
        } else {
            match kb.modifiers {
                Some(clause) => FromModifiers::error_in(clause),
                None => None,
            }
        }
    }

    /// Whether this is what the configuration of a `from` says: the key
    /// that is named, if any, and the modifiers that its clause names,
    /// each once, which are none where there is no clause.
    pub open spec fn reads(&self, kb: KBFromDefinition) -> bool {
        &&& self.modifiers.well_formed()
        &&& self.key == match kb.key_code {
            Some(name) => KeyCode::named(name@),
            None => None,
        }
        &&& match kb.modifiers {
            Some(clause) => self.modifiers.reads(clause),
            None => self.modifiers.mandatory@ == Seq::<KBModifier>::empty()
                && self.modifiers.optional@ == Seq::<KBModifier>::empty(),
        }
    }

    /// Reads a `from` from the configuration.
    pub fn from_config(kb_from: &KBFromDefinition) -> (from: Result<FromEvent, ConfigError>)
        ensures
            match from {
                Ok(from) => Self::error_in(*kb_from) is None && from.reads(*kb_from),
                Err(error) => Self::error_in(*kb_from) == Some(error),
            },
    {
        let key = match &kb_from.key_code {
            Some(key_code) => match read_key(key_code) {
                Ok(key) => Some(key),
                Err(error) => { return Err(error); },
            },
            None => None,
        };
        let modifiers = match &kb_from.modifiers {
            Some(from_modifiers) => match FromModifiers::from_config(from_modifiers) {
                Ok(modifiers) => modifiers,
                Err(error) => { return Err(error); },
            },
            None => FromModifiers::default(),
        };
        Ok(FromEvent { key, modifiers })
    }
}

} // verus!
