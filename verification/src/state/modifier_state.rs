//! The modifier keys that are down, in the order in which they went
//! down, and the test of a rule's requirements against them.

use crate::event::KeyEvent;
use crate::karabiner::modifier::KBModifier;
use crate::key_state::KeyState;
use crate::keys::KeyCode;
use crate::state::from_modifiers::{holds, FromModifiers};
use crate::state::modifier::ModifierKey;
use crate::state::pressed_set::{
    codes_in_order, empty_set, set_contains, set_insert_if_absent, set_remove, set_to_vec,
};
use crate::state::sequence::{
    lemma_without_contains, lemma_without_map, lemma_without_no_duplicates, without,
};
use linked_hash_set::LinkedHashSet;
use vstd::prelude::*;

verus! {

/// The member of a group that stands for the group: the left key if it
/// is down, else the right key if that is down.
pub open spec fn first_pressed(pressed: Seq<ModifierKey>, modifier: KBModifier) -> Option<
    ModifierKey,
> {
    let members = modifier.members();
    if members.len() > 0 && pressed.contains(members[0]) {
        Some(members[0])
    } else if members.len() > 1 && pressed.contains(members[1]) {
        Some(members[1])
    } else {
        None
    }
}

/// Every mandatory modifier has a key that is down.
pub open spec fn mandatory_met(pressed: Seq<ModifierKey>, modifiers: FromModifiers) -> bool {
    forall|modifier: KBModifier| #[trigger]
        modifiers.is_mandatory(modifier) ==> first_pressed(pressed, modifier) is Some
}

/// No key is down that the rule does not speak of. A rule with `any`
/// among its optional modifiers lets every key be down.
pub open spec fn none_unaccounted(pressed: Seq<ModifierKey>, modifiers: FromModifiers) -> bool {
    modifiers.is_optional(KBModifier::Any) || forall|key: ModifierKey| #[trigger]
        pressed.contains(key) ==> modifiers.mentions(key)
}

/// Whether the requirements are met by the keys that are down. With
/// `any` among the mandatory modifiers they always are.
pub open spec fn accepts(pressed: Seq<ModifierKey>, modifiers: FromModifiers) -> bool {
    modifiers.is_mandatory(KBModifier::Any) || (mandatory_met(pressed, modifiers)
        && none_unaccounted(pressed, modifiers))
}

/// Whether a key is bound by the requirements: with `any` mandatory,
/// every key that is down is; else a key is bound if it stands for one
/// of the mandatory modifiers.
pub open spec fn binds(pressed: Seq<ModifierKey>, modifiers: FromModifiers, key: ModifierKey) -> bool {
    if modifiers.is_mandatory(KBModifier::Any) {
        pressed.contains(key)
    } else {
        exists|modifier: KBModifier| #[trigger]
            modifiers.is_mandatory(modifier) && first_pressed(pressed, modifier) == Some(key)
    }
}

/// Those of `candidates` that are bound, in the order of `candidates`.
pub open spec fn bound_among(
    candidates: Seq<ModifierKey>,
    pressed: Seq<ModifierKey>,
    modifiers: FromModifiers,
) -> Seq<ModifierKey> {
    candidates.filter(|key: ModifierKey| binds(pressed, modifiers, key))
}

/// The outcome of testing the requirements of a rule: `None` if they
/// are not met, else the keys that are bound, oldest press first.
pub open spec fn tested(pressed: Seq<ModifierKey>, modifiers: FromModifiers) -> Option<
    Seq<ModifierKey>,
> {
    if accepts(pressed, modifiers) {
        Some(bound_among(pressed, pressed, modifiers))
    } else {
        None
    }
}

/// The keys that are down after an event, given those that were down
/// before it. A press or an autorepeat of a modifier key puts the key
/// at the end unless it is there already; any other event of a modifier
/// key takes the key out; an event of another key changes nothing.
pub open spec fn after_event(pressed: Seq<ModifierKey>, event: KeyEvent) -> Seq<ModifierKey> {
    match ModifierKey::of_code(event.key.code) {
        Some(key) => if event.state is Pressed || event.state is Autorepeat {
            if pressed.contains(key) {
                pressed
            } else {
                pressed.push(key)
            }
        } else {
            without(pressed, key)
        },
        None => pressed,
    }
}

/// The modifier key that a stored code stands for.
pub closed spec fn key_of(code: u16) -> ModifierKey {
    match ModifierKey::of_code(code) {
        Some(key) => key,
        None => ModifierKey::Capslock,
    }
}

/// Every code in the sequence is that of a modifier key.
pub closed spec fn all_modifier_codes(codes: Seq<u16>) -> bool {
    forall|i: int| 0 <= i < codes.len() ==> ModifierKey::of_code(#[trigger] codes[i]) is Some
}

proof fn lemma_code_contains(codes: Seq<u16>, key: ModifierKey)
    requires
        all_modifier_codes(codes),
    ensures
        codes.contains(key.code()) <==> codes.map_values(|code: u16| key_of(code)).contains(key),
{
    let keys = codes.map_values(|code: u16| key_of(code));
    key.lemma_code_round_trip(key.code());
    if codes.contains(key.code()) {
        let i = choose|i: int| 0 <= i < codes.len() && codes[i] == key.code();
        assert(keys[i] == key);
    }
    if keys.contains(key) {
        let i = choose|i: int| 0 <= i < keys.len() && keys[i] == key;
        assert(ModifierKey::of_code(codes[i]) is Some);
        key.lemma_code_round_trip(codes[i]);
        assert(codes[i] == key.code());
    }
}

proof fn lemma_keys_no_duplicates(codes: Seq<u16>)
    requires
        all_modifier_codes(codes),
        codes.no_duplicates(),
    ensures
        codes.map_values(|code: u16| key_of(code)).no_duplicates(),
{
    let keys = codes.map_values(|code: u16| key_of(code));
    assert forall|a: int, b: int| 0 <= a < keys.len() && 0 <= b < keys.len() && a != b implies keys[a]
        != keys[b] by {
        assert(ModifierKey::of_code(codes[a]) is Some);
        assert(ModifierKey::of_code(codes[b]) is Some);
        keys[a].lemma_code_round_trip(codes[a]);
        keys[b].lemma_code_round_trip(codes[b]);
    }
}

/// Whether a vector of keys holds a given one.
pub fn has_key(keys: &Vec<ModifierKey>, key: ModifierKey) -> (found: bool)
    ensures
        found == keys@.contains(key),
{
    let mut i: usize = 0;
    while i < keys.len()
        invariant
            i <= keys@.len(),
            forall|j: int| 0 <= j < i ==> keys@[j] != key,
        decreases keys@.len() - i,
    {
        if keys[i] == key {
            return true;
        }
        i += 1;
    }
    false
}

/// Whether a rule speaks of a modifier key.
fn mentioned(modifiers: &FromModifiers, key: ModifierKey) -> (yes: bool)
    ensures
        yes == modifiers.mentions(key),
{
    let names = KBModifier::variants();
    let mut i: usize = 0;
    while i < names.len()
        invariant
            i <= names@.len(),
            names@ == KBModifier::all(),
            forall|j: int|
                0 <= j < i ==> !((modifiers.is_mandatory(names@[j]) || modifiers.is_optional(
                    names@[j],
                )) && names@[j].members().contains(key)),
        decreases names@.len() - i,
    {
        let name = names[i];
        if holds(&modifiers.mandatory, name) || holds(&modifiers.optional, name) {
            let members = name.as_modifiers();
            if has_key(&members, key) {
                return true;
            }
        }
        i += 1;
    }
    proof {
        assert forall|modifier: KBModifier|
            (modifiers.is_mandatory(modifier) || modifiers.is_optional(modifier)) implies !(
        #[trigger] modifier.members().contains(key)) by {
            modifier.lemma_all_complete();
            let j = choose|j: int| 0 <= j < names@.len() && names@[j] == modifier;
            assert(names@[j] == modifier);
        }
    }
    false
}

proof fn lemma_bound_among_push(
    candidates: Seq<ModifierKey>,
    last: ModifierKey,
    pressed: Seq<ModifierKey>,
    modifiers: FromModifiers,
)
    ensures
        bound_among(candidates.push(last), pressed, modifiers) == if binds(
            pressed,
            modifiers,
            last,
        ) {
            bound_among(candidates, pressed, modifiers).push(last)
        } else {
            bound_among(candidates, pressed, modifiers)
        },
{
    reveal(Seq::filter);
    assert(candidates.push(last).drop_last() =~= candidates);
}

/// The bound keys among a run of candidates are all of them, if each
/// is bound.
pub proof fn lemma_bound_among_all(
    candidates: Seq<ModifierKey>,
    pressed: Seq<ModifierKey>,
    modifiers: FromModifiers,
)
    requires
        forall|i: int| 0 <= i < candidates.len() ==> binds(pressed, modifiers, #[trigger] candidates[i]),
    ensures
        bound_among(candidates, pressed, modifiers) == candidates,
    decreases candidates.len(),
{
    reveal(Seq::filter);
    if candidates.len() > 0 {
        let before = candidates.drop_last();
        assert forall|i: int| 0 <= i < before.len() implies binds(
            pressed,
            modifiers,
            #[trigger] before[i],
        ) by {
            assert(before[i] == candidates[i]);
        }
        lemma_bound_among_all(before, pressed, modifiers);
        lemma_bound_among_push(before, candidates.last(), pressed, modifiers);
        assert(before.push(candidates.last()) =~= candidates);
        assert(binds(pressed, modifiers, candidates[candidates.len() - 1]));
    } else {
        assert(bound_among(candidates, pressed, modifiers) =~= candidates);
    }
}

/// Of two bound keys, the one that comes first among the bound stands
/// first among the candidates.
pub proof fn lemma_bound_among_ordered(
    candidates: Seq<ModifierKey>,
    pressed: Seq<ModifierKey>,
    modifiers: FromModifiers,
    a: int,
    b: int,
)
    requires
        candidates.no_duplicates(),
        0 <= a < b < bound_among(candidates, pressed, modifiers).len(),
    ensures
        ({
            let bound = bound_among(candidates, pressed, modifiers);
            &&& candidates.contains(bound[a])
            &&& candidates.contains(bound[b])
            &&& candidates.index_of(bound[a]) < candidates.index_of(bound[b])
        }),
    decreases candidates.len(),
{
    reveal(Seq::filter);
    let bound = bound_among(candidates, pressed, modifiers);
    if candidates.len() > 0 {
        let before = candidates.drop_last();
        let last = candidates.last();
        let kept = bound_among(before, pressed, modifiers);
        assert(candidates[candidates.len() - 1] == last);
        assert forall|i: int| 0 <= i < before.len() implies before[i] == candidates[i] by {}
        if b < kept.len() {
            lemma_bound_among_ordered(before, pressed, modifiers, a, b);
            let ia = before.index_of(kept[a]);
            let ib = before.index_of(kept[b]);
            assert(candidates[ia] == kept[a]);
            assert(candidates[ib] == kept[b]);
        } else {
            // the last candidate is bound and stands at `b`
            assert(bound == kept.push(last));
            assert(bound[b] == last);
            lemma_bound_among_member(before, pressed, modifiers, a);
            let ia = before.index_of(kept[a]);
            assert(candidates[ia] == kept[a]);
        }
    }
}

/// A bound key is one of the candidates.
pub proof fn lemma_bound_among_member(
    candidates: Seq<ModifierKey>,
    pressed: Seq<ModifierKey>,
    modifiers: FromModifiers,
    a: int,
)
    requires
        0 <= a < bound_among(candidates, pressed, modifiers).len(),
    ensures
        candidates.contains(bound_among(candidates, pressed, modifiers)[a]),
    decreases candidates.len(),
{
    reveal(Seq::filter);
    if candidates.len() > 0 {
        let before = candidates.drop_last();
        let kept = bound_among(before, pressed, modifiers);
        if a < kept.len() {
            lemma_bound_among_member(before, pressed, modifiers, a);
            let i = choose|i: int| 0 <= i < before.len() && before[i] == kept[a];
            assert(candidates[i] == kept[a]);
        } else {
            assert(candidates[candidates.len() - 1] == candidates.last());
        }
    }
}

/// No key stands twice among the bound, if none stands twice among the
/// candidates.
pub proof fn lemma_bound_among_distinct(
    candidates: Seq<ModifierKey>,
    pressed: Seq<ModifierKey>,
    modifiers: FromModifiers,
)
    requires
        candidates.no_duplicates(),
    ensures
        bound_among(candidates, pressed, modifiers).no_duplicates(),
{
    let bound = bound_among(candidates, pressed, modifiers);
    assert forall|a: int, b: int| 0 <= a < bound.len() && 0 <= b < bound.len() && a != b implies bound[a]
        != bound[b] by {
        if a < b {
            lemma_bound_among_ordered(candidates, pressed, modifiers, a, b);
        } else {
            lemma_bound_among_ordered(candidates, pressed, modifiers, b, a);
        }
    }
}

/// The modifier keys that are down.
#[derive(Debug)]
pub struct ModifierState {
    inner: LinkedHashSet<u16>,
}

impl View for ModifierState {
    type V = Seq<ModifierKey>;

    /// The keys that are down, oldest press first.
    closed spec fn view(&self) -> Seq<ModifierKey> {
        codes_in_order(self.inner).map_values(|code: u16| key_of(code))
    }
}

impl ModifierState {
    #[verifier::type_invariant]
    spec fn well_formed(&self) -> bool {
        &&& all_modifier_codes(codes_in_order(self.inner))
        &&& codes_in_order(self.inner).no_duplicates()
    }

    /// Creates a new `ModifierState` struct, with no key down.
    pub fn new() -> (state: ModifierState)
        ensures
            state@ == Seq::<ModifierKey>::empty(),
    {
        let state = ModifierState { inner: empty_set() };
        assert(state@ =~= Seq::<ModifierKey>::empty());
        state
    }

    /// Updates the internal state to reflect the passed event.
    pub fn update(&mut self, key_event: &KeyEvent)
        ensures
            final(self)@ == after_event(old(self)@, *key_event),
            final(self)@.no_duplicates(),
    {
        proof {
            use_type_invariant(&*self);
            lemma_keys_no_duplicates(codes_in_order(self.inner));
        }
        let is_pressed = match key_event.state {
            KeyState::Pressed | KeyState::Autorepeat => true,
            KeyState::Released | KeyState::Unknown(_) => false,
        };
        if let Some(modifier) = ModifierKey::from_key(&key_event.key) {
            let code: u16 = key_event.key.code;
            let ghost before = codes_in_order(self.inner);
            proof {
                modifier.lemma_code_round_trip(code);
                lemma_code_contains(before, modifier);
            }
            // The set is taken out while it changes, and an empty one
            // stands in for it.
            let mut inner = empty_set();
            std::mem::swap(&mut inner, &mut self.inner);
            if is_pressed {
                let added = set_insert_if_absent(&mut inner, code);
                proof {
                    if added {
                        assert(before.push(code).map_values(|code: u16| key_of(code))
                            =~= before.map_values(|code: u16| key_of(code)).push(modifier));
                    }
                    lemma_keys_no_duplicates(codes_in_order(inner));
                }
            } else {
                set_remove(&mut inner, code);
                proof {
                    assert forall|i: int|
                        0 <= i < before.len() && #[trigger] before[i] != code implies key_of(
                        before[i],
                    ) != key_of(code) by {
                        assert(ModifierKey::of_code(before[i]) is Some);
                        key_of(before[i]).lemma_code_round_trip(before[i]);
                    }
                    lemma_without_map(before, code, |code: u16| key_of(code));
                    lemma_without_no_duplicates(before, code);
                    let kept = without(before, code);
                    assert forall|i: int| 0 <= i < kept.len() implies ModifierKey::of_code(
                        #[trigger] kept[i],
                    ) is Some by {
                        assert(kept.contains(kept[i]));
                        lemma_without_contains(before, code, kept[i]);
                        let j = choose|j: int| 0 <= j < before.len() && before[j] == kept[i];
                        assert(ModifierKey::of_code(before[j]) is Some);
                    }
                    lemma_keys_no_duplicates(kept);
                }
            }
            std::mem::swap(&mut inner, &mut self.inner);
        }
    }

    /// Check whether the given modifier is currently active.
    pub fn is_pressed(&self, modifier: ModifierKey) -> (down: bool)
        ensures
            down == self@.contains(modifier),
    {
        proof {
            use_type_invariant(self);
            lemma_code_contains(codes_in_order(self.inner), modifier);
        }
        match modifier.as_key() {
            Some(key) => set_contains(&self.inner, key.code),
            None => false,
        }
    }

    /// The keys that are down, oldest press first.
    pub fn pressed(&self) -> (keys: Vec<ModifierKey>)
        ensures
            keys@ == self@,
            keys@.no_duplicates(),
    {
        proof {
            use_type_invariant(self);
            lemma_keys_no_duplicates(codes_in_order(self.inner));
        }
        let codes = set_to_vec(&self.inner);
        let mut keys: Vec<ModifierKey> = Vec::new();
        let mut i: usize = 0;
        while i < codes.len()
            invariant
                i <= codes@.len(),
                all_modifier_codes(codes@),
                keys@ == codes@.take(i as int).map_values(|code: u16| key_of(code)),
            decreases codes@.len() - i,
        {
            assert(ModifierKey::of_code(codes@[i as int]) is Some);
            if let Some(key) = ModifierKey::from_key(&KeyCode { code: codes[i] }) {
                keys.push(key);
            }
            assert(keys@ =~= codes@.take(i + 1).map_values(|code: u16| key_of(code)));
            i += 1;
        }
        assert(codes@.take(i as int) =~= codes@);
        keys
    }

    /// The key that stands for a modifier among the keys that are down.
    fn first_pressed_key(&self, modifier: KBModifier) -> (key: Option<ModifierKey>)
        ensures
            key == first_pressed(self@, modifier),
    {
        let members = modifier.as_modifiers();
        if members.len() > 0 && self.is_pressed(members[0]) {
            Some(members[0])
        } else if members.len() > 1 && self.is_pressed(members[1]) {
            Some(members[1])
        } else {
            None
        }
    }

    /// Tests the requirements of a rule against the keys that are down.
    ///
    /// If "modifiers" is not present:
    ///     - only fire when NO modifiers are pressed
    /// If "modifiers.mandatory" is present:
    ///     - needs modifiers to be pressed
    ///     - fire keys without the mandatory modifiers
    /// If "modifiers.optional" is present:
    ///     - keys matched independently of modifiers
    ///     - modifiers fire independently of keys
    ///
    /// The answer is `None` if the requirements are not met, and else
    /// the keys that they bind, oldest press first.
    pub fn test_modifiers(&self, fm: &FromModifiers) -> (bound: Option<Vec<ModifierKey>>)
        ensures
            match bound {
                Some(keys) => tested(self@, *fm) == Some(keys@) && keys@.no_duplicates(),
                None => tested(self@, *fm) is None,
            },
    {
        let pressed = self.pressed();

        // If `any` is mandatory, return all active modifiers.
        if holds(&fm.mandatory, KBModifier::Any) {
            proof {
                lemma_bound_among_all(pressed@, pressed@, *fm);
            }
            return Some(pressed);
        }
        // Mandatory modifiers.

        let names = KBModifier::variants();
        let mut chosen: Vec<ModifierKey> = Vec::new();
        let mut i: usize = 0;
        while i < names.len()
            invariant
                i <= names@.len(),
                names@ == KBModifier::all(),
                !fm.is_mandatory(KBModifier::Any),
                forall|j: int|
                    0 <= j < i && fm.is_mandatory(#[trigger] names@[j]) ==> first_pressed(
                        self@,
                        names@[j],
                    ) is Some,
                forall|key: ModifierKey| #[trigger]
                    chosen@.contains(key) <==> exists|j: int|
                        0 <= j < i && fm.is_mandatory(#[trigger] names@[j]) && first_pressed(
                            self@,
                            names@[j],
                        ) == Some(key),
            decreases names@.len() - i,
        {
            let name = names[i];
            if holds(&fm.mandatory, name) {
                match self.first_pressed_key(name) {
                    Some(key) => {
                        let ghost before = chosen@;
                        chosen.push(key);
                        proof {
                            assert forall|other: ModifierKey| #[trigger]
                                chosen@.contains(other) <==> exists|j: int|
                                    0 <= j < i + 1 && fm.is_mandatory(#[trigger] names@[j])
                                        && first_pressed(self@, names@[j]) == Some(other) by {
                                if chosen@.contains(other) {
                                    let k = choose|k: int|
                                        0 <= k < chosen@.len() && chosen@[k] == other;
                                    if k < before.len() {
                                        assert(before[k] == other);
                                        assert(before.contains(other));
                                    } else {
                                        assert(fm.is_mandatory(names@[i as int]));
                                    }
                                }
                                if exists|j: int|
                                    0 <= j < i + 1 && fm.is_mandatory(#[trigger] names@[j])
                                        && first_pressed(self@, names@[j]) == Some(other) {
                                    let j = choose|j: int|
                                        0 <= j < i + 1 && fm.is_mandatory(#[trigger] names@[j])
                                            && first_pressed(self@, names@[j]) == Some(other);
                                    if j < i {
                                        assert(before.contains(other));
                                        let k = choose|k: int|
                                            0 <= k < before.len() && before[k] == other;
                                        assert(chosen@[k] == other);
                                    } else {
                                        assert(chosen@[before.len() as int] == other);
                                    }
                                }
                            }
                        }
                    },
                    None => {
                        return None;
                    },
                }
            }
            i += 1;
        }
        proof {
            assert forall|modifier: KBModifier| #[trigger] fm.is_mandatory(modifier) implies first_pressed(
                self@,
                modifier,
            ) is Some by {
                modifier.lemma_all_complete();
                let j = choose|j: int| 0 <= j < names@.len() && names@[j] == modifier;
                assert(fm.is_mandatory(names@[j]));
            }
            assert forall|key: ModifierKey| chosen@.contains(key) <==> binds(self@, *fm, key) by {
                if binds(self@, *fm, key) {
                    let modifier = choose|modifier: KBModifier| #[trigger]
                        fm.is_mandatory(modifier) && first_pressed(self@, modifier) == Some(key);
                    modifier.lemma_all_complete();
                    let j = choose|j: int| 0 <= j < names@.len() && names@[j] == modifier;
                    assert(fm.is_mandatory(names@[j]));
                }
            }
        }

        // Modifiers that the rule does not speak of.
        if !holds(&fm.optional, KBModifier::Any) {
            let mut k: usize = 0;
            while k < pressed.len()
                invariant
                    k <= pressed@.len(),
                    pressed@ == self@,
                    !fm.is_mandatory(KBModifier::Any),
                    !fm.is_optional(KBModifier::Any),
                    forall|j: int| 0 <= j < k ==> fm.mentions(#[trigger] pressed@[j]),
                decreases pressed@.len() - k,
            {
                if !mentioned(fm, pressed[k]) {
                    assert(self@.contains(pressed@[k as int]));
                    return None;
                }
                k += 1;
            }
            proof {
                assert forall|key: ModifierKey| #[trigger] self@.contains(key) implies fm.mentions(
                    key,
                ) by {
                    let j = choose|j: int| 0 <= j < pressed@.len() && pressed@[j] == key;
                    assert(fm.mentions(pressed@[j]));
                }
            }
        }
        assert(accepts(self@, *fm));

        let mut bound: Vec<ModifierKey> = Vec::new();
        let mut k: usize = 0;
        assert(pressed@.take(0) =~= Seq::<ModifierKey>::empty());
        proof {
            reveal(Seq::filter);
        }
        while k < pressed.len()
            invariant
                k <= pressed@.len(),
                pressed@ == self@,
                forall|key: ModifierKey| chosen@.contains(key) <==> binds(self@, *fm, key),
                bound@ == bound_among(pressed@.take(k as int), self@, *fm),
            decreases pressed@.len() - k,
        {
            let key = pressed[k];
            proof {
                lemma_bound_among_push(pressed@.take(k as int), key, self@, *fm);
                assert(pressed@.take(k as int).push(key) =~= pressed@.take(k + 1));
            }
            if has_key(&chosen, key) {
                bound.push(key);
            }
            k += 1;
        }
        assert(pressed@.take(k as int) =~= pressed@);
        proof {
            lemma_bound_among_distinct(self@, self@, *fm);
        }
        Some(bound)
    }
}

impl Default for ModifierState {
    fn default() -> (state: ModifierState)
        ensures
            state@ == Seq::<ModifierKey>::empty(),
    {
        ModifierState::new()
    }
}

} // verus!
