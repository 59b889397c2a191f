//! One step of what a rule sends.

use crate::karabiner::config::{ConfigError, KBToDefinition};
use crate::keys::KeyCode;
use crate::state::from_modifiers::listed;
use crate::state::modifier::ModifierKey;
use crate::state::simple_manipulator::{key_name_error, read_key};
use vstd::prelude::*;

verus! {

/// One step of a rule's output: a key, the modifiers to hold around it,
/// and perhaps a command to run.
#[derive(Debug)]
pub struct ToEvent {
    pub key: Option<KeyCode>,
    pub modifiers: Vec<ModifierKey>,
    pub shell_command: Option<String>,
    pub repeat: bool,
    pub lazy: bool,
}

/// The first name in a list that names no modifier key.
pub open spec fn first_unknown_modifier(names: Seq<String>) -> Option<String>
    decreases names.len(),
{
    if names.len() == 0 {
        None
    } else if ModifierKey::named(names[0]@) is None {
        Some(names[0])
    } else {
        first_unknown_modifier(names.drop_first())
    }
}

/// The modifier keys that a list of names stands for, name by name. It
/// says something only of a list in which every name is known.
pub open spec fn modifier_keys_named(names: Seq<String>) -> Seq<ModifierKey> {
    Seq::new(names.len(), |i: int| ModifierKey::named(names[i]@).unwrap())
}

fn read_modifier_keys(names: &Option<Vec<String>>) -> (keys: Result<Vec<ModifierKey>, ConfigError>)
    ensures
        match keys {
            Ok(keys) => first_unknown_modifier(listed(*names)) is None && keys@
                == modifier_keys_named(listed(*names)),
            Err(error) => first_unknown_modifier(listed(*names)) matches Some(name) && error
                == ConfigError::UnknownModifier(name),
        },
{
    let mut keys: Vec<ModifierKey> = Vec::new();
    match names {
        Some(list) => {
            let mut i: usize = 0;
            assert(list@.skip(0) =~= list@);
            while i < list.len()
                invariant
                    i <= list@.len(),
                    listed(*names) == list@,
                    first_unknown_modifier(list@) == first_unknown_modifier(list@.skip(i as int)),
                    keys@ == modifier_keys_named(list@.take(i as int)),
                decreases list@.len() - i,
            {
                assert(list@.skip(i as int).drop_first() =~= list@.skip(i + 1));
                match ModifierKey::from_kb_key_code(list[i].as_str()) {
                    Some(key) => {
                        keys.push(key);
                        assert(keys@ =~= modifier_keys_named(list@.take(i + 1)));
                    },
                    None => {
                        assert(list@.skip(i as int)[0] == list@[i as int]);
                        return Err(ConfigError::UnknownModifier(list[i].clone()));
                    },
                }
                i += 1;
            }
            assert(list@.take(i as int) =~= list@);
        },
        None => {
            assert(keys@ =~= modifier_keys_named(listed(*names)));
        },
    }
    Ok(keys)
}

impl ToEvent {
    /// The first error in the configuration of a step: that of its key
    /// name, or else that of the first modifier name that names no
    /// modifier key.
    pub open spec fn error_in(kb: KBToDefinition) -> Option<ConfigError> {
        let key_error = match kb.key_code {
            Some(name) => key_name_error(name),
            None => None,
        };
        if key_error is Some {
            key_error
        } else {
            match first_unknown_modifier(listed(kb.modifiers)) {
                Some(name) => Some(ConfigError::UnknownModifier(name)),
                None => None,
            }
        }
    }

    /// Whether this is what the configuration of a step says. A step
    /// repeats unless told otherwise, and is lazy only if told so.
    pub open spec fn reads(&self, kb: KBToDefinition) -> bool {
        &&& self.key == match kb.key_code {
            Some(name) => KeyCode::named(name@),
            None => None,
        }
        &&& self.modifiers@ == modifier_keys_named(listed(kb.modifiers))
        &&& self.shell_command == kb.shell_command
        &&& self.repeat == match kb.repeat {
            Some(repeat) => repeat,
            None => true,
        }
        &&& self.lazy == match kb.lazy {
            Some(lazy) => lazy,
            None => false,
        }
    }

    /// Reads a step from the configuration.
    pub fn from_config(kb_to: &KBToDefinition) -> (to: Result<ToEvent, ConfigError>)
        ensures
            match to {
                Ok(to) => Self::error_in(*kb_to) is None && to.reads(*kb_to),
                Err(error) => Self::error_in(*kb_to) == Some(error),
            },
    {
        let key = match &kb_to.key_code {
            Some(key_code) => match read_key(key_code) {
                Ok(key) => Some(key),
                Err(error) => { return Err(error); },
            },
            None => None,
        };
        let modifiers = match read_modifier_keys(&kb_to.modifiers) {
            Ok(modifiers) => modifiers,
            Err(error) => { return Err(error); },
        };
        let shell_command = match &kb_to.shell_command {
            Some(command) => Some(command.clone()),
            None => None,
        };
        let repeat = match kb_to.repeat {
            Some(repeat) => repeat,
            None => true,
        };
        let lazy = match kb_to.lazy {
            Some(lazy) => lazy,
            None => false,
        };
        Ok(ToEvent { key, modifiers, shell_command, repeat, lazy })
    }
}

} // verus!
