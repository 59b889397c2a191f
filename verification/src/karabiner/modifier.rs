//! Modifier names as a rule may write them.

use crate::state::modifier::ModifierKey;
use crate::text::str_eq;
use vstd::prelude::*;

verus! {

/// A modifier as a rule names it: one modifier key, or a group of them.
///
/// * `Any`: any modifier may be pressed
/// * `Alt`: either the left or right alt keys
/// * `Meta`: either the left or right meta keys
/// * `Shift`: either the left or right shift keys
/// * `Control`: either the left or right control keys
#[derive(Debug, Copy, Clone, PartialEq, Eq, Hash, Structural)]
pub enum KBModifier {
    Any,
    Alt,
    Meta,
    Shift,
    Control,
    Capslock,
    LeftAlt,
    RightAlt,
    LeftMeta,
    RightMeta,
    LeftShift,
    RightShift,
    LeftControl,
    RightControl,
}

impl KBModifier {
    /// Every modifier name.
    pub const VARIANTS: [KBModifier; 14] = [
        KBModifier::Any,
        KBModifier::Alt,
        KBModifier::Meta,
        KBModifier::Shift,
        KBModifier::Control,
        KBModifier::Capslock,
        KBModifier::LeftAlt,
        KBModifier::RightAlt,
        KBModifier::LeftMeta,
        KBModifier::RightMeta,
        KBModifier::LeftShift,
        KBModifier::RightShift,
        KBModifier::LeftControl,
        KBModifier::RightControl,
    ];

    /// Every modifier name, in the order in which the engine enumerates
    /// them.
    pub open spec fn all() -> Seq<KBModifier> {
        seq![
            KBModifier::Any,
            KBModifier::Alt,
            KBModifier::Meta,
            KBModifier::Shift,
            KBModifier::Control,
            KBModifier::Capslock,
            KBModifier::LeftAlt,
            KBModifier::RightAlt,
            KBModifier::LeftMeta,
            KBModifier::RightMeta,
            KBModifier::LeftShift,
            KBModifier::RightShift,
            KBModifier::LeftControl,
            KBModifier::RightControl,
        ]
    }

    /// The keys that a name stands for, left before right. `Any` stands
    /// for no key in particular, so it has none.
    pub open spec fn members(self) -> Seq<ModifierKey> {
        match self {
            KBModifier::Any => seq![],
            KBModifier::Alt => seq![ModifierKey::LeftAlt, ModifierKey::RightAlt],
            KBModifier::Meta => seq![ModifierKey::LeftMeta, ModifierKey::RightMeta],
            KBModifier::Shift => seq![ModifierKey::LeftShift, ModifierKey::RightShift],
            KBModifier::Control => seq![ModifierKey::LeftControl, ModifierKey::RightControl],
            KBModifier::Capslock => seq![ModifierKey::Capslock],
            KBModifier::LeftAlt => seq![ModifierKey::LeftAlt],
            KBModifier::RightAlt => seq![ModifierKey::RightAlt],
            KBModifier::LeftMeta => seq![ModifierKey::LeftMeta],
            KBModifier::RightMeta => seq![ModifierKey::RightMeta],
            KBModifier::LeftShift => seq![ModifierKey::LeftShift],
            KBModifier::RightShift => seq![ModifierKey::RightShift],
            KBModifier::LeftControl => seq![ModifierKey::LeftControl],
            KBModifier::RightControl => seq![ModifierKey::RightControl],
        }
    }

    /// The name that stands for one modifier key alone.
    pub open spec fn single(modifier: ModifierKey) -> KBModifier {
        match modifier {
            ModifierKey::Capslock => KBModifier::Capslock,
            ModifierKey::LeftAlt => KBModifier::LeftAlt,
            ModifierKey::RightAlt => KBModifier::RightAlt,
            ModifierKey::LeftMeta => KBModifier::LeftMeta,
            ModifierKey::RightMeta => KBModifier::RightMeta,
            ModifierKey::LeftShift => KBModifier::LeftShift,
            ModifierKey::RightShift => KBModifier::RightShift,
            ModifierKey::LeftControl => KBModifier::LeftControl,
            ModifierKey::RightControl => KBModifier::RightControl,
        }
    }

    /// The modifier that a configuration name stands for: one of the
    /// five groups, or else whatever modifier key the name names.
    pub open spec fn named(name: Seq<char>) -> Option<KBModifier> {
        if name == "any"@ {
            Some(KBModifier::Any)
        } else if name == "shift"@ {
            Some(KBModifier::Shift)
        } else if name == "option"@ {
            Some(KBModifier::Alt)
        } else if name == "command"@ {
            Some(KBModifier::Meta)
        } else if name == "control"@ {
            Some(KBModifier::Control)
        } else {
            match ModifierKey::named(name) {
                Some(modifier) => Some(Self::single(modifier)),
                None => None,
            }
        }
    }

    /// The name of a single key stands for that key and no other.
    pub proof fn lemma_single_members(modifier: ModifierKey)
        ensures
            Self::single(modifier).members() == seq![modifier],
    {
    }

    /// `all()` lists each modifier name, once.
    pub proof fn lemma_all_complete(self)
        ensures
            Self::all().contains(self),
            Self::all().no_duplicates(),
            Self::all().len() == 14,
    {
        let all = Self::all();
        match self {
            KBModifier::Any => assert(all[0] == self),
            KBModifier::Alt => assert(all[1] == self),
            KBModifier::Meta => assert(all[2] == self),
            KBModifier::Shift => assert(all[3] == self),
            KBModifier::Control => assert(all[4] == self),
            KBModifier::Capslock => assert(all[5] == self),
            KBModifier::LeftAlt => assert(all[6] == self),
            KBModifier::RightAlt => assert(all[7] == self),
            KBModifier::LeftMeta => assert(all[8] == self),
            KBModifier::RightMeta => assert(all[9] == self),
            KBModifier::LeftShift => assert(all[10] == self),
            KBModifier::RightShift => assert(all[11] == self),
            KBModifier::LeftControl => assert(all[12] == self),
            KBModifier::RightControl => assert(all[13] == self),
        }
    }

    /// The modifier names as a vector, in enumeration order.
    pub fn variants() -> (all: Vec<KBModifier>)
        ensures
            all@ == Self::all(),
    {
        let all = vec![
            KBModifier::Any,
            KBModifier::Alt,
            KBModifier::Meta,
            KBModifier::Shift,
            KBModifier::Control,
            KBModifier::Capslock,
            KBModifier::LeftAlt,
            KBModifier::RightAlt,
            KBModifier::LeftMeta,
            KBModifier::RightMeta,
            KBModifier::LeftShift,
            KBModifier::RightShift,
            KBModifier::LeftControl,
            KBModifier::RightControl,
        ];
        assert(all@ =~= Self::all());
        all
    }

    /// The keys that this name stands for, left before right.
    pub fn as_modifiers(self) -> (keys: Vec<ModifierKey>)
        ensures
            keys@ == self.members(),
    {
        let keys = match self {
            KBModifier::Any => vec![],
            KBModifier::Alt => vec![ModifierKey::LeftAlt, ModifierKey::RightAlt],
            KBModifier::Meta => vec![ModifierKey::LeftMeta, ModifierKey::RightMeta],
            KBModifier::Shift => vec![ModifierKey::LeftShift, ModifierKey::RightShift],
            KBModifier::Control => vec![ModifierKey::LeftControl, ModifierKey::RightControl],
            KBModifier::Capslock => vec![ModifierKey::Capslock],
            KBModifier::LeftAlt => vec![ModifierKey::LeftAlt],
            KBModifier::RightAlt => vec![ModifierKey::RightAlt],
            KBModifier::LeftMeta => vec![ModifierKey::LeftMeta],
            KBModifier::RightMeta => vec![ModifierKey::RightMeta],
            KBModifier::LeftShift => vec![ModifierKey::LeftShift],
            KBModifier::RightShift => vec![ModifierKey::RightShift],
            KBModifier::LeftControl => vec![ModifierKey::LeftControl],
            KBModifier::RightControl => vec![ModifierKey::RightControl],
        };
        assert(keys@ =~= self.members());
        keys
    }

    /// The name that stands for one modifier key alone.
    pub fn from_modifier(modifier: ModifierKey) -> (name: KBModifier)
        ensures
            name == Self::single(modifier),
    {
        match modifier {
            ModifierKey::Capslock => KBModifier::Capslock,
            ModifierKey::LeftAlt => KBModifier::LeftAlt,
            ModifierKey::RightAlt => KBModifier::RightAlt,
            ModifierKey::LeftMeta => KBModifier::LeftMeta,
            ModifierKey::RightMeta => KBModifier::RightMeta,
            ModifierKey::LeftShift => KBModifier::LeftShift,
            ModifierKey::RightShift => KBModifier::RightShift,
            ModifierKey::LeftControl => KBModifier::LeftControl,
            ModifierKey::RightControl => KBModifier::RightControl,
        }
    }

    /// Reads a modifier from its configuration name; `None` for a name
    /// that names none.
    pub fn from_kb_key_code(key_code: &str) -> (name: Option<KBModifier>)
        ensures
            name == Self::named(key_code@),
    {
        if str_eq(key_code, "any") {
            Some(KBModifier::Any)
        } else if str_eq(key_code, "shift") {
            Some(KBModifier::Shift)
        } else if str_eq(key_code, "option") {
            Some(KBModifier::Alt)
        } else if str_eq(key_code, "command") {
            Some(KBModifier::Meta)
        } else if str_eq(key_code, "control") {
            Some(KBModifier::Control)
        } else {
            match ModifierKey::from_kb_key_code(key_code) {
                Some(modifier) => Some(KBModifier::from_modifier(modifier)),
                None => None,
            }
        }
    }
}

} // verus!
