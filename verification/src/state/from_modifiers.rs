//! What a rule asks of the modifier keys.

use crate::karabiner::config::{ConfigError, KBFromModifiers};
use crate::karabiner::modifier::KBModifier;
use crate::state::modifier::ModifierKey;
use vstd::prelude::*;

verus! {

/// The modifiers that a rule names. A modifier in `mandatory` must be
/// pressed for the rule to apply; one in `optional` may be. Each vector
/// stands for a set: it is read by what it holds, and the constructors
/// put no modifier in it twice (see `well_formed`).
#[derive(Debug)]
pub struct FromModifiers {
    pub mandatory: Vec<KBModifier>,
    pub optional: Vec<KBModifier>,
}

/// The names in an optional list; none where there is no list.
pub open spec fn listed(names: Option<Vec<String>>) -> Seq<String> {
    match names {
        Some(names) => names@,
        None => Seq::empty(),
    }
}

/// The first name in a list that names no modifier.
pub open spec fn first_unknown_name(names: Seq<String>) -> Option<String>
    decreases names.len(),
{
    if names.len() == 0 {
        None
    } else if KBModifier::named(names[0]@) is None {
        Some(names[0])
    } else {
        first_unknown_name(names.drop_first())
    }
}

/// A run of modifiers with one more in it: at the end, unless it is
/// there already.
pub open spec fn with_modifier(found: Seq<KBModifier>, modifier: KBModifier) -> Seq<KBModifier> {
    if found.contains(modifier) {
        found
    } else {
        found.push(modifier)
    }
}

/// The modifiers that a list of names stands for, each once, in the
/// order in which the names first name them. It says something only of
/// a list in which every name is known.
pub open spec fn modifiers_named(names: Seq<String>) -> Seq<KBModifier>
    decreases names.len(),
{
    if names.len() == 0 {
        Seq::empty()
    } else {
        let before = modifiers_named(names.drop_last());
        match KBModifier::named(names.last()@) {
            Some(modifier) => with_modifier(before, modifier),
            None => before,
        }
    }
}

/// No modifier stands twice among those that a list of names stands
/// for.
pub proof fn lemma_modifiers_named_distinct(names: Seq<String>)
    ensures
        modifiers_named(names).no_duplicates(),
    decreases names.len(),
{
    if names.len() > 0 {
        lemma_modifiers_named_distinct(names.drop_last());
        let before = modifiers_named(names.drop_last());
        if let Some(modifier) = KBModifier::named(names.last()@) {
            if !before.contains(modifier) {
                let grown = before.push(modifier);
                assert forall|a: int, b: int|
                    0 <= a < grown.len() && 0 <= b < grown.len() && a != b implies grown[a]
                    != grown[b] by {
                    if a < before.len() {
                        assert(before.contains(before[a]));
                    }
                    if b < before.len() {
                        assert(before.contains(before[b]));
                    }
                }
            }
        }
    }
}

/// Puts a modifier into a vector unless it is there already, and says
/// whether it was put in.
pub fn add_modifier(modifiers: &mut Vec<KBModifier>, modifier: KBModifier) -> (added: bool)
    ensures
        added == !old(modifiers)@.contains(modifier),
        final(modifiers)@ == with_modifier(old(modifiers)@, modifier),
{
    if holds(modifiers, modifier) {
        false
    } else {
        modifiers.push(modifier);
        true
    }
}

/// Whether a vector of modifier names holds a given one.
pub fn holds(modifiers: &Vec<KBModifier>, modifier: KBModifier) -> (found: bool)
    ensures
        found == modifiers@.contains(modifier),
{
    let mut i: usize = 0;
    while i < modifiers.len()
        invariant
            i <= modifiers@.len(),
            forall|j: int| 0 <= j < i ==> modifiers@[j] != modifier,
        decreases modifiers@.len() - i,
    {
        if modifiers[i] == modifier {
            return true;
        }
        i += 1;
    }
    false
}

fn read_names(names: &Option<Vec<String>>) -> (modifiers: Result<Vec<KBModifier>, ConfigError>)
    ensures
        match modifiers {
            Ok(modifiers) => first_unknown_name(listed(*names)) is None && modifiers@
                == modifiers_named(listed(*names)) && modifiers@.no_duplicates(),
            Err(error) => first_unknown_name(listed(*names)) matches Some(name) && error
                == ConfigError::UnknownModifier(name),
        },
{
    let mut modifiers: Vec<KBModifier> = Vec::new();
    match names {
        Some(list) => {
            let mut i: usize = 0;
            assert(list@.skip(0) =~= list@);
            while i < list.len()
                invariant
                    i <= list@.len(),
                    listed(*names) == list@,
                    first_unknown_name(list@) == first_unknown_name(list@.skip(i as int)),
                    modifiers@ == modifiers_named(list@.take(i as int)),
                decreases list@.len() - i,
            {
                assert(list@.skip(i as int).drop_first() =~= list@.skip(i + 1));
                assert(list@.skip(i as int)[0] == list@[i as int]);
                assert(list@.take(i + 1).drop_last() =~= list@.take(i as int));
                match KBModifier::from_kb_key_code(list[i].as_str()) {
                    Some(modifier) => {
                        add_modifier(&mut modifiers, modifier);
                    },
                    None => {
                        return Err(ConfigError::UnknownModifier(list[i].clone()));
                    },
                }
                i += 1;
            }
            assert(list@.take(i as int) =~= list@);
        },
        None => {},
    }
    proof {
        lemma_modifiers_named_distinct(listed(*names));
    }
    Ok(modifiers)
}

impl FromModifiers {
    /// Whether the rule asks for this modifier.
    pub open spec fn is_mandatory(&self, modifier: KBModifier) -> bool {
        self.mandatory@.contains(modifier)
    }

    /// Whether the rule lets this modifier be pressed.
    pub open spec fn is_optional(&self, modifier: KBModifier) -> bool {
        self.optional@.contains(modifier)
    }

    /// Whether the rule speaks of a modifier key at all: under its own
    /// name or under that of its group, as mandatory or as optional.
    pub open spec fn mentions(&self, key: ModifierKey) -> bool {
        exists|modifier: KBModifier|
            (self.is_mandatory(modifier) || self.is_optional(modifier))
                && #[trigger] modifier.members().contains(key)
    }

    /// The first error in a modifier clause: the first mandatory name
    /// that names no modifier, or else the first such optional name.
    pub open spec fn error_in(kb: KBFromModifiers) -> Option<ConfigError> {
        match first_unknown_name(listed(kb.mandatory)) {
            Some(name) => Some(ConfigError::UnknownModifier(name)),
            None => match first_unknown_name(listed(kb.optional)) {
                Some(name) => Some(ConfigError::UnknownModifier(name)),
                None => None,
            },
        }
    }

    /// Neither vector holds a modifier twice.
    pub open spec fn well_formed(&self) -> bool {
        self.mandatory@.no_duplicates() && self.optional@.no_duplicates()
    }

    /// Whether these are the modifiers that a clause names.
    pub open spec fn reads(&self, kb: KBFromModifiers) -> bool {
        &&& self.mandatory@ == modifiers_named(listed(kb.mandatory))
        &&& self.optional@ == modifiers_named(listed(kb.optional))
    }

    /// Requirements that name no modifier.
    pub fn new() -> (modifiers: FromModifiers)
        ensures
            modifiers.mandatory@ == Seq::<KBModifier>::empty(),
            modifiers.optional@ == Seq::<KBModifier>::empty(),
            modifiers.well_formed(),
    {
        FromModifiers { mandatory: Vec::new(), optional: Vec::new() }
    }

    /// Reads the requirements from the configuration.
    pub fn from_config(kb_from_modifiers: &KBFromModifiers) -> (modifiers: Result<
        FromModifiers,
        ConfigError,
    >)
        ensures
            match modifiers {
                Ok(modifiers) => Self::error_in(*kb_from_modifiers) is None && modifiers.reads(
                    *kb_from_modifiers,
                ) && modifiers.well_formed(),
                Err(error) => Self::error_in(*kb_from_modifiers) == Some(error),
            },
    {
        let mandatory = match read_names(&kb_from_modifiers.mandatory) {
            Ok(mandatory) => mandatory,
            Err(error) => { return Err(error); },
        };
        let optional = match read_names(&kb_from_modifiers.optional) {
            Ok(optional) => optional,
            Err(error) => { return Err(error); },
        };
        Ok(FromModifiers { mandatory, optional })
    }
}

impl Default for FromModifiers {
    fn default() -> (modifiers: FromModifiers)
        ensures
            modifiers.mandatory@ == Seq::<KBModifier>::empty(),
            modifiers.optional@ == Seq::<KBModifier>::empty(),
            modifiers.well_formed(),
    {
        FromModifiers::new()
    }
}

} // verus!
