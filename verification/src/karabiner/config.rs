//! The configuration file, as a tree of plain values.

use vstd::prelude::*;

verus! {

/// Karabiner configuration file.
#[derive(Debug)]
pub struct KBConfig {
    pub profiles: Vec<KBProfile>,
}

#[derive(Debug)]
pub struct KBProfile {
    pub name: String,
    pub selected: bool,
    pub simple_modifications: Vec<KBSimpleModification>,
    pub complex_modifications: KBComplexModifications,
}

#[derive(Debug, Clone)]
pub struct KBSimpleModification {
    pub from: KBSimpleRule,
    pub to: KBSimpleRule,
}

#[derive(Debug, Clone)]
pub struct KBSimpleRule {
    pub key_code: String,
}

#[derive(Debug)]
pub struct KBComplexModifications {
    pub rules: Vec<KBComplexRule>,
}

#[derive(Debug)]
pub struct KBComplexRule {
    pub manipulators: Vec<KBManipulator>,
}

#[derive(Debug)]
pub struct KBManipulator {
    pub description: Option<String>,
    pub kind: KBManipulatorKind,
    pub from: KBFromDefinition,
    pub to: Option<Vec<KBToDefinition>>,
    pub conditions: Option<Vec<KBCondition>>,
}

#[derive(Debug, Copy, Clone, PartialEq, Eq, Structural)]
pub enum KBManipulatorKind {
    Basic,
}

#[derive(Debug)]
pub struct KBFromDefinition {
    pub key_code: Option<String>,
    pub modifiers: Option<KBFromModifiers>,
    pub simultaneous: Option<Vec<KBFromDefinition>>,
    pub simultaneous_options: Option<KBSimultaneousOptions>,
}

#[derive(Debug, Clone)]
pub struct KBToDefinition {
    pub key_code: Option<String>,
    pub modifiers: Option<Vec<String>>,
    pub shell_command: Option<String>,
    pub repeat: Option<bool>,
    pub lazy: Option<bool>,
}

#[derive(Debug, Clone)]
pub struct KBCondition {
    pub kind: KBConditionKind,
    pub bundle_identifiers: Option<Vec<String>>,  // regexp
}

#[derive(Debug, Copy, Clone, PartialEq, Eq, Structural)]
pub enum KBConditionKind {
    FrontmostApplicationIf,
    FrontmostApplicationUnless,
}

#[derive(Debug, Clone)]
pub struct KBFromModifiers {
    pub mandatory: Option<Vec<String>>,
    pub optional: Option<Vec<String>>,
}

#[derive(Debug, Clone)]
pub struct KBSimultaneousOptions {
    pub to_after_key_up: Option<Vec<KBToDefinition>>,
}

/// Why a configuration cannot be run.
#[derive(Debug, Clone, PartialEq, Eq)]
pub enum ConfigError {
    /// A key name that names no key.
    UnknownKeyCode(String),
    /// A modifier name that names no modifier: in the `from` part of a
    /// rule a key or a group, in the `to` part a key.
    UnknownModifier(String),
    /// No profile is marked as selected.
    NoSelectedProfile,
    /// More than one profile is marked as selected.
    SeveralSelectedProfiles,
}

impl KBConfig {
    /// How many of the first `n` profiles are marked as selected.
    pub open spec fn selected_count(profiles: Seq<KBProfile>, n: int) -> int
        decreases n,
    {
        if n <= 0 {
            0
        } else {
            Self::selected_count(profiles, n - 1) + if profiles[n - 1].selected {
                1int
            } else {
                0int
            }
        }
    }

    /// Where the one selected profile stands: `Ok` with its index if
    /// exactly one profile is selected, and else the error that says
    /// whether there was none or more than one.
    pub fn selected_profile(&self) -> (found: Result<usize, ConfigError>)
        ensures
            match found {
                Ok(index) => {
                    &&& index < self.profiles@.len()
                    &&& self.profiles@[index as int].selected
                    &&& Self::selected_count(self.profiles@, self.profiles@.len() as int) == 1
                },
                Err(error) => {
                    let count = Self::selected_count(self.profiles@, self.profiles@.len() as int);
                    &&& count != 1
                    &&& error == if count == 0 {
                        ConfigError::NoSelectedProfile
                    } else {
                        ConfigError::SeveralSelectedProfiles
                    }
                },
            },
    {
        let mut found: Option<usize> = None;
        let mut several = false;
        let mut i: usize = 0;
        while i < self.profiles.len()
            invariant
                i <= self.profiles@.len(),
                Self::selected_count(self.profiles@, i as int) >= 0,
                found is None <==> Self::selected_count(self.profiles@, i as int) == 0,
                several <==> Self::selected_count(self.profiles@, i as int) > 1,
                found matches Some(index) ==> index < i && self.profiles@[index as int].selected,
            decreases self.profiles@.len() - i,
        {
            if self.profiles[i].selected {
                if found.is_some() {
                    several = true;
                } else {
                    found = Some(i);
                }
            }
            i += 1;
        }
        match found {
            None => Err(ConfigError::NoSelectedProfile),
            Some(index) => if several {
                Err(ConfigError::SeveralSelectedProfiles)
            } else {
                Ok(index)
            },
        }
    }
}

} // verus!
