//! Plain key-for-key substitution.

use crate::karabiner::config::{ConfigError, KBSimpleModification};
use crate::keys::KeyCode;
use vstd::prelude::*;

verus! {

/// The error of a key name, if it names no key.
pub open spec fn key_name_error(name: String) -> Option<ConfigError> {
    if KeyCode::named(name@) is None {
        Some(ConfigError::UnknownKeyCode(name))
    } else {
        None
    }
}

/// Reads a key name, or says that it names no key.
pub fn read_key(name: &String) -> (key: Result<KeyCode, ConfigError>)
    ensures
        match key {
            Ok(key) => KeyCode::named(name@) == Some(key),
            Err(error) => key_name_error(*name) == Some(error),
        },
{
    match KeyCode::from_kb_key_code(name.as_str()) {
        Some(key) => Ok(key),
        None => Err(ConfigError::UnknownKeyCode(name.clone())),
    }
}

/// A `SimpleManipulator` is just a simple remapping between two keys.
#[derive(Debug, Copy, Clone, PartialEq, Eq, Structural)]
pub struct SimpleManipulator {
    pub from: KeyCode,
    pub to: KeyCode,
}

/// The key that stands for `key` under a list of substitutions: the
/// `to` of the first one whose `from` is `key`, and `key` itself where
/// there is none.
pub open spec fn substituted(rules: Seq<SimpleManipulator>, key: KeyCode) -> KeyCode
    decreases rules.len(),
{
    if rules.len() == 0 {
        key
    } else if rules[0].from == key {
        rules[0].to
    } else {
        substituted(rules.drop_first(), key)
    }
}

impl SimpleManipulator {
    /// What the configuration of one substitution reads as: the
    /// substitution, or the error of the first of its two names that
    /// names no key.
    pub open spec fn read(kb: KBSimpleModification) -> Result<SimpleManipulator, ConfigError> {
        match KeyCode::named(kb.from.key_code@) {
            None => Err(ConfigError::UnknownKeyCode(kb.from.key_code)),
            Some(from) => match KeyCode::named(kb.to.key_code@) {
                None => Err(ConfigError::UnknownKeyCode(kb.to.key_code)),
                Some(to) => Ok(SimpleManipulator { from, to }),
            },
        }
    }

    /// Reads one substitution from the configuration.
    pub fn from_config(kb_simple_modification: &KBSimpleModification) -> (manipulator: Result<
        SimpleManipulator,
        ConfigError,
    >)
        ensures
            manipulator == Self::read(*kb_simple_modification),
    {
        let from = match read_key(&kb_simple_modification.from.key_code) {
            Ok(key) => key,
            Err(error) => { return Err(error); },
        };
        let to = match read_key(&kb_simple_modification.to.key_code) {
            Ok(key) => key,
            Err(error) => { return Err(error); },
        };
        Ok(SimpleManipulator { from, to })
    }

    /// The key to put in place of `key`, if this substitution is about
    /// `key`.
    pub fn matches_and_apply(&self, key: KeyCode) -> (to: Option<KeyCode>)
        ensures
            to == if self.from == key {
                Some(self.to)
            } else {
                None
            },
    {
        if self.from == key {
            Some(self.to)
        } else {
            None
        }
    }
}

/// Applies the first substitution that is about `key`.
pub fn substitute(rules: &Vec<SimpleManipulator>, key: KeyCode) -> (to: KeyCode)
    ensures
        to == substituted(rules@, key),
{
    let mut i: usize = 0;
    assert(rules@.skip(0) =~= rules@);
    while i < rules.len()
        invariant
            i <= rules@.len(),
            substituted(rules@, key) == substituted(rules@.skip(i as int), key),
        decreases rules@.len() - i,
    {
        assert(rules@.skip(i as int).drop_first() =~= rules@.skip(i + 1));
        if let Some(to) = rules[i].matches_and_apply(key) {
            return to;
        }
        i += 1;
    }
    key
}

/// A key that no substitution is about stands for itself, and so does a
/// key whose first substitution gives the key itself.
pub proof fn lemma_substituted_same(rules: Seq<SimpleManipulator>, key: KeyCode)
    requires
        forall|i: int| 0 <= i < rules.len() && #[trigger] rules[i].from == key ==> rules[i].to == key,
    ensures
        substituted(rules, key) == key,
    decreases rules.len(),
{
    if rules.len() > 0 && rules[0].from != key {
        let rest = rules.drop_first();
        assert forall|i: int| 0 <= i < rest.len() && #[trigger] rest[i].from == key implies rest[i].to
            == key by {
            assert(rest[i] == rules[i + 1]);
        }
        lemma_substituted_same(rest, key);
    }
}

} // verus!
