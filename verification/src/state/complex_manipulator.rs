//! A rule with a condition on the modifiers and a list of steps.

use crate::event::{KeyEvent, TimeVal};
use crate::karabiner::config::{
    ConfigError, KBComplexModifications, KBComplexRule, KBManipulator, KBManipulatorKind,
    KBToDefinition,
};
use crate::key_state::KeyState;
use crate::keys::KeyCode;
use crate::state::from_event::FromEvent;
use crate::state::instance::{
    modifier_events, push_modifier_events, InstanceView, ManipulationInstance,
};
use crate::state::modifier::ModifierKey;
use crate::state::modifier_state::{accepts, tested, ModifierState};
use crate::state::to_event::ToEvent;
use vstd::prelude::*;

verus! {

/// What became of an event that was shown to a rule.
#[derive(Debug, Copy, Clone, PartialEq, Eq, Structural)]
pub enum ManipulationResult {
    /// The rule left the event alone.
    Skipped,
    /// The rule dealt with the event.
    Applied,
}

/// The event of a step's key, if the step has a key.
pub open spec fn key_events(key: Option<KeyCode>, state: KeyState, time: TimeVal, lazy: bool) -> Seq<
    KeyEvent,
> {
    match key {
        Some(key) => seq![KeyEvent { key, state, time, lazy }],
        None => Seq::empty(),
    }
}

/// Whether the release of a step's key waits for the release of the
/// source key: so it is for the last step, if it repeats.
pub open spec fn key_release_waits(to: ToEvent, last: bool) -> bool {
    last && to.repeat
}

/// Whether the release of a step's modifiers waits for the release of
/// the source key: so it is for the last step, if its key is a modifier
/// key.
pub open spec fn modifier_release_waits(to: ToEvent, last: bool) -> bool {
    last && ends_in_modifier(to)
}

/// Whether the key of a step is a modifier key.
pub open spec fn ends_in_modifier(to: ToEvent) -> bool {
    to.key matches Some(key) && ModifierKey::of_code(key.code) is Some
}

/// What one step sends when the source key goes down: a press for each
/// of its modifiers, a press for its key, and then the releases of the
/// key and of the modifiers, each unless it waits.
pub open spec fn step_sent(to: ToEvent, last: bool, time: TimeVal) -> Seq<KeyEvent> {
    modifier_events(to.modifiers@, KeyState::Pressed, time, to.lazy) + key_events(
        to.key,
        KeyState::Pressed,
        time,
        to.lazy,
    ) + (if key_release_waits(to, last) {
        Seq::empty()
    } else {
        key_events(to.key, KeyState::Released, time, to.lazy)
    }) + (if modifier_release_waits(to, last) {
        Seq::empty()
    } else {
        modifier_events(to.modifiers@, KeyState::Released, time, to.lazy)
    })
}

/// What one step keeps for the release of the source key: the release
/// of its key and the releases of its modifiers, each if it waits.
pub open spec fn step_deferred(to: ToEvent, last: bool, time: TimeVal) -> Seq<KeyEvent> {
    (if key_release_waits(to, last) {
        key_events(to.key, KeyState::Released, time, to.lazy)
    } else {
        Seq::empty()
    }) + (if modifier_release_waits(to, last) {
        modifier_events(to.modifiers@, KeyState::Released, time, to.lazy)
    } else {
        Seq::empty()
    })
}

/// What the first `n` steps send, step after step.
pub open spec fn steps_sent(to: Seq<ToEvent>, n: int, time: TimeVal) -> Seq<KeyEvent>
    decreases n,
{
    if n <= 0 {
        Seq::empty()
    } else {
        steps_sent(to, n - 1, time) + step_sent(to[n - 1], n == to.len(), time)
    }
}

/// What the first `n` steps keep for the release of the source key.
pub open spec fn steps_deferred(to: Seq<ToEvent>, n: int, time: TimeVal) -> Seq<KeyEvent>
    decreases n,
{
    if n <= 0 {
        Seq::empty()
    } else {
        steps_deferred(to, n - 1, time) + step_deferred(to[n - 1], n == to.len(), time)
    }
}

/// The commands of the first `n` steps, in the order of the steps.
pub open spec fn steps_commands(to: Seq<ToEvent>, n: int) -> Seq<String>
    decreases n,
{
    if n <= 0 {
        Seq::empty()
    } else {
        match to[n - 1].shell_command {
            Some(command) => steps_commands(to, n - 1).push(command),
            None => steps_commands(to, n - 1),
        }
    }
}

/// Whether the cancelled modifiers are pressed again as soon as the
/// steps have been sent: so it is unless the key of the last step is a
/// modifier key.
pub open spec fn restores_at_once(to: Seq<ToEvent>) -> bool {
    !(to.len() > 0 && ends_in_modifier(to.last()))
}

/// What a press that fires a rule brings about.
#[verifier::ext_equal]
pub struct Firing {
    /// What is sent at once.
    pub sent: Seq<KeyEvent>,
    /// The commands to run.
    pub commands: Seq<String>,
    /// What waits for the release of the source key.
    pub instance: InstanceView,
}

/// The press `event` fires a rule with the steps `to`, and the
/// requirements of the rule bind the keys `bound`.
///
/// A rule without steps sends nothing and keeps nothing. Any other rule
/// first releases the bound keys, in their order, then sends its steps;
/// then it presses the bound keys again, unless the last step's key is
/// a modifier key: in that case they stay cancelled until the release.
pub open spec fn fired(to: Seq<ToEvent>, bound: Seq<ModifierKey>, event: KeyEvent) -> Firing {
    if to.len() == 0 {
        Firing {
            sent: Seq::empty(),
            commands: Seq::empty(),
            instance: InstanceView {
                source_key: event.key,
                press_time: event.time,
                key_up_already_emitted: false,
                cancelled_mandatory_modifiers: Seq::empty(),
                deferred_release_events: Seq::empty(),
            },
        }
    } else {
        Firing {
            sent: modifier_events(bound, KeyState::Released, event.time, false) + steps_sent(
                to,
                to.len() as int,
                event.time,
            ) + (if restores_at_once(to) {
                modifier_events(bound, KeyState::Pressed, event.time, false)
            } else {
                Seq::empty()
            }),
            commands: steps_commands(to, to.len() as int),
            instance: InstanceView {
                source_key: event.key,
                press_time: event.time,
                key_up_already_emitted: false,
                cancelled_mandatory_modifiers: if restores_at_once(to) {
                    Seq::empty()
                } else {
                    bound
                },
                deferred_release_events: steps_deferred(to, to.len() as int, event.time),
            },
        }
    }
}

/// The first place at or after `start` where an instance for `key`
/// stands.
pub open spec fn first_live_from(live: Seq<InstanceView>, key: KeyCode, start: int) -> Option<int>
    decreases live.len() - start,
{
    if start < 0 || start >= live.len() {
        None
    } else if live[start].source_key == key {
        Some(start)
    } else {
        first_live_from(live, key, start + 1)
    }
}

/// The first place where an instance for `key` stands.
pub open spec fn first_live(live: Seq<InstanceView>, key: KeyCode) -> Option<int> {
    first_live_from(live, key, 0)
}

/// A rule as plain values: what it waits for, its steps, and the
/// instances of it that are at work.
#[verifier::ext_equal]
pub struct ManipulatorView {
    pub description: Option<String>,
    pub from: FromEvent,
    pub to: Seq<ToEvent>,
    pub live: Seq<InstanceView>,
}

/// What showing an event to a rule brings about.
#[verifier::ext_equal]
pub struct Applied {
    pub manipulator: ManipulatorView,
    pub sent: Seq<KeyEvent>,
    pub commands: Seq<String>,
    pub result: ManipulationResult,
}

impl ManipulatorView {
    /// Whether the rule is about this key and its requirements are met
    /// by the modifier keys that are down.
    pub open spec fn matches(self, pressed: Seq<ModifierKey>, key: KeyCode) -> bool {
        self.from.key == Some(key) && accepts(pressed, self.from.modifiers)
    }

    /// Whether the rule deals with the event: with a press if it
    /// matches and is not at work for the key already, with a release
    /// if it is at work for the key, and with nothing else.
    pub open spec fn handles(self, pressed: Seq<ModifierKey>, event: KeyEvent) -> bool {
        match event.state {
            KeyState::Pressed => self.matches(pressed, event.key) && first_live(
                self.live,
                event.key,
            ) is None,
            KeyState::Released => first_live(self.live, event.key) is Some,
            _ => false,
        }
    }

    /// The rule is skipped.
    pub open spec fn skipped(self) -> Applied {
        Applied {
            manipulator: self,
            sent: Seq::empty(),
            commands: Seq::empty(),
            result: ManipulationResult::Skipped,
        }
    }

    /// What showing an event to the rule brings about. An event that
    /// the rule does not deal with changes nothing. A press that it
    /// deals with puts a new instance at the end of those at work; a
    /// release takes the first instance for the key away, after its
    /// release has been dealt with.
    pub open spec fn applied(self, pressed: Seq<ModifierKey>, event: KeyEvent) -> Applied {
        if !self.handles(pressed, event) {
            self.skipped()
        } else if event.state is Pressed {
            let press = fired(self.to, tested(pressed, self.from.modifiers).unwrap(), event);
            Applied {
                manipulator: ManipulatorView { live: self.live.push(press.instance), ..self },
                sent: press.sent,
                commands: press.commands,
                result: ManipulationResult::Applied,
            }
        } else {
            let at = first_live(self.live, event.key).unwrap();
            Applied {
                manipulator: ManipulatorView { live: self.live.remove(at), ..self },
                sent: self.live[at].released(event.time).sent,
                commands: Seq::empty(),
                result: ManipulationResult::Applied,
            }
        }
    }
}

/// A rule: what it waits for, what it sends, and the instances of it
/// that are at work.
#[derive(Debug)]
pub struct ComplexManipulator {
    pub description: Option<String>,
    pub from_event: FromEvent,
    pub to_events: Vec<ToEvent>,
    instances: Vec<ManipulationInstance>,
}

impl View for ComplexManipulator {
    type V = ManipulatorView;

    closed spec fn view(&self) -> ManipulatorView {
        ManipulatorView {
            description: self.description,
            from: self.from_event,
            to: self.to_events@,
            live: self.instances@.map_values(|instance: ManipulationInstance| instance@),
        }
    }
}

/// The steps under `to` in the configuration of a rule; none where
/// there is no `to`.
pub open spec fn steps_listed(to: Option<Vec<KBToDefinition>>) -> Seq<KBToDefinition> {
    match to {
        Some(to) => to@,
        None => Seq::empty(),
    }
}

/// The first error among the first `n` steps of a configuration.
pub open spec fn steps_error(steps: Seq<KBToDefinition>, n: int) -> Option<ConfigError>
    decreases n,
{
    if n <= 0 {
        None
    } else if steps_error(steps, n - 1) is Some {
        steps_error(steps, n - 1)
    } else {
        ToEvent::error_in(steps[n - 1])
    }
}

impl ComplexManipulator {
    /// The first error in the configuration of a rule: that of its
    /// `from`, or else the first among its steps.
    pub open spec fn error_in(kb: KBManipulator) -> Option<ConfigError> {
        if FromEvent::error_in(kb.from) is Some {
            FromEvent::error_in(kb.from)
        } else {
            steps_error(steps_listed(kb.to), steps_listed(kb.to).len() as int)
        }
    }

    /// Whether a rule is what its configuration says, with no instance
    /// at work.
    pub open spec fn reads(rule: ManipulatorView, kb: KBManipulator) -> bool {
        &&& rule.description == kb.description
        &&& rule.from.reads(kb.from)
        &&& rule.to.len() == steps_listed(kb.to).len()
        &&& forall|i: int| 0 <= i < rule.to.len() ==> (#[trigger] rule.to[i]).reads(steps_listed(kb.to)[i])
        &&& rule.live == Seq::<InstanceView>::empty()
    }

    /// Reads a rule from the configuration.
    pub fn new(manipulator: &KBManipulator) -> (rule: Result<ComplexManipulator, ConfigError>)
        ensures
            match rule {
                Ok(rule) => Self::error_in(*manipulator) is None && Self::reads(rule@, *manipulator),
                Err(error) => Self::error_in(*manipulator) == Some(error),
            },
    {
        match manipulator.kind {
            KBManipulatorKind::Basic => {
                let description = match &manipulator.description {
                    Some(description) => Some(description.clone()),
                    None => None,
                };
                let from_event = match FromEvent::from_config(&manipulator.from) {
                    Ok(from_event) => from_event,
                    Err(error) => { return Err(error); },
                };
                let mut to_events: Vec<ToEvent> = Vec::new();
                if let Some(to_config_list) = &manipulator.to {
                    let mut i: usize = 0;
                    while i < to_config_list.len()
                        invariant
                            i <= to_config_list@.len(),
                            FromEvent::error_in(manipulator.from) is None,
                            steps_listed(manipulator.to) == to_config_list@,
                            steps_error(to_config_list@, i as int) is None,
                            to_events@.len() == i,
                            forall|j: int|
                                0 <= j < i ==> (#[trigger] to_events@[j]).reads(to_config_list@[j]),
                        decreases to_config_list@.len() - i,
                    {
                        match ToEvent::from_config(&to_config_list[i]) {
                            Ok(to_event) => {
                                to_events.push(to_event);
                            },
                            Err(error) => {
                                proof {
                                    lemma_steps_error_stays(
                                        to_config_list@,
                                        i + 1,
                                        to_config_list@.len() as int,
                                    );
                                }
                                return Err(error);
                            },
                        }
                        i += 1;
                    }
                }
                let rule = ComplexManipulator {
                    description,
                    from_event,
                    to_events,
                    instances: Vec::new(),
                };
                assert(rule@.live =~= Seq::<InstanceView>::empty());
                Ok(rule)
            },
        }
    }

    /// Whether the rule is about the key of the event and its
    /// requirements are met by the modifier keys that are down.
    pub fn matches(&self, mod_state: &ModifierState, event: &KeyEvent) -> (yes: bool)
        ensures
            yes == self@.matches(mod_state@, event.key),
    {
        match self.from_event.key {
            Some(from_key) => {
                if from_key == event.key {
                    mod_state.test_modifiers(&self.from_event.modifiers).is_some()
                } else {
                    false
                }
            },
            None => false,
        }
    }

    /// Where the first instance for `key` stands among those at work.
    pub fn find_instance(&self, key: KeyCode) -> (at: Option<usize>)
        ensures
            match at {
                Some(at) => {
                    &&& first_live(self@.live, key) == Some(at as int)
                    &&& at < self@.live.len()
                    &&& self@.live[at as int].source_key == key
                },
                None => first_live(self@.live, key) is None,
            },
    {
        let mut i: usize = 0;
        while i < self.instances.len()
            invariant
                i <= self.instances@.len(),
                self@.live.len() == self.instances@.len(),
                first_live(self@.live, key) == first_live_from(self@.live, key, i as int),
            decreases self.instances@.len() - i,
        {
            if self.instances[i].source_key == key {
                return Some(i);
            }
            i += 1;
        }
        None
    }

    /// How many instances of the rule are at work.
    pub fn live_instances(&self) -> (count: usize)
        ensures
            count == self@.live.len(),
    {
        self.instances.len()
    }

    /// Fires the rule for a press.
    fn press(
        &mut self,
        bound: Vec<ModifierKey>,
        event: &KeyEvent,
        output_queue: &mut Vec<KeyEvent>,
        shell_commands: &mut Vec<String>,
    )
        ensures
            final(self)@ == (ManipulatorView {
                live: old(self)@.live.push(fired(old(self)@.to, bound@, *event).instance),
                ..old(self)@
            }),
            final(output_queue)@ == old(output_queue)@ + fired(old(self)@.to, bound@, *event).sent,
            final(shell_commands)@ == old(shell_commands)@ + fired(
                old(self)@.to,
                bound@,
                *event,
            ).commands,
    {
        let ghost to = self.to_events@;
        let ghost queue_before = output_queue@;
        let ghost commands_before = shell_commands@;
        let time = event.time;
        let n = self.to_events.len();
        let mut deferred: Vec<KeyEvent> = Vec::new();
        let mut cancelled: Vec<ModifierKey> = Vec::new();
        if n > 0 {
            // Clear current mandatory modifiers.
            push_modifier_events(output_queue, &bound, KeyState::Released, &time, false);
            let ghost cancel = modifier_events(bound@, KeyState::Released, time, false);
            let mut i: usize = 0;
            assert(output_queue@ =~= queue_before + cancel + steps_sent(to, 0, time));
            assert(shell_commands@ =~= commands_before + steps_commands(to, 0));
            while i < n
                invariant
                    i <= n,
                    n == to.len(),
                    self.to_events@ == to,
                    output_queue@ == queue_before + cancel + steps_sent(to, i as int, time),
                    deferred@ == steps_deferred(to, i as int, time),
                    shell_commands@ == commands_before + steps_commands(to, i as int),
                decreases n - i,
            {
                let ghost queue_here = output_queue@;
                let ghost deferred_here = deferred@;
                let to_event = &self.to_events[i];
                let last = i + 1 == n;
                let lazy = to_event.lazy;
                // Wrap the emitted key event in modifiers from the "to_event" definition.
                push_modifier_events(
                    output_queue,
                    &to_event.modifiers,
                    KeyState::Pressed,
                    &time,
                    lazy,
                );
                let mut key_is_modifier = false;
                if let Some(key) = to_event.key {
                    output_queue.push(KeyEvent::new(&time, &key, KeyState::Pressed, lazy));
                    let release = KeyEvent::new(&time, &key, KeyState::Released, lazy);
                    if last && to_event.repeat {
                        deferred.push(release);
                    } else {
                        output_queue.push(release);
                    }
                    key_is_modifier = ModifierKey::is_modifier(&key);
                }
                if last && key_is_modifier {
                    push_modifier_events(
                        &mut deferred,
                        &to_event.modifiers,
                        KeyState::Released,
                        &time,
                        lazy,
                    );
                } else {
                    push_modifier_events(
                        output_queue,
                        &to_event.modifiers,
                        KeyState::Released,
                        &time,
                        lazy,
                    );
                }
                // Hand the shell command over if one is defined.
                if let Some(command) = &to_event.shell_command {
                    shell_commands.push(command.clone());
                }
                proof {
                    assert(output_queue@ =~= queue_here + step_sent(to[i as int], last, time));
                    assert(deferred@ =~= deferred_here + step_deferred(to[i as int], last, time));
                    assert(output_queue@ =~= queue_before + cancel + steps_sent(to, i + 1, time));
                    assert(shell_commands@ =~= commands_before + steps_commands(to, i + 1));
                }
                i += 1;
            }
            let last_is_modifier = match self.to_events[n - 1].key {
                Some(key) => ModifierKey::is_modifier(&key),
                None => false,
            };
            assert(to.last() == to[n - 1]);
            if last_is_modifier {
                cancelled = bound;
            } else {
                // Press the mandatory modifiers again.
                push_modifier_events(output_queue, &bound, KeyState::Pressed, &time, false);
            }
            assert(output_queue@ =~= queue_before + fired(to, bound@, *event).sent);
        } else {
            assert(output_queue@ =~= queue_before + fired(to, bound@, *event).sent);
            assert(shell_commands@ =~= commands_before + fired(to, bound@, *event).commands);
        }
        let instance = ManipulationInstance {
            source_key: event.key,
            press_time: event.time,
            key_up_already_emitted: false,
            cancelled_mandatory_modifiers: cancelled,
            deferred_release_events: deferred,
        };
        assert(instance@ =~= fired(to, bound@, *event).instance);
        self.instances.push(instance);
        assert(self@.live =~= old(self)@.live.push(fired(to, bound@, *event).instance));
    }

    /// Shows an event to the rule. What the rule sends goes to the end
    /// of `output_queue`, and the commands it wants run go to the end
    /// of `shell_commands`.
    pub fn apply(
        &mut self,
        mod_state: &ModifierState,
        event: &KeyEvent,
        output_queue: &mut Vec<KeyEvent>,
        shell_commands: &mut Vec<String>,
    ) -> (result: ManipulationResult)
        ensures
            final(self)@ == old(self)@.applied(mod_state@, *event).manipulator,
            final(output_queue)@ == old(output_queue)@ + old(self)@.applied(mod_state@, *event).sent,
            final(shell_commands)@ == old(shell_commands)@ + old(self)@.applied(
                mod_state@,
                *event,
            ).commands,
            result == old(self)@.applied(mod_state@, *event).result,
    {
        let ghost before = self@;
        assert(output_queue@ =~= output_queue@ + Seq::<KeyEvent>::empty());
        assert(shell_commands@ =~= shell_commands@ + Seq::<String>::empty());
        match event.state {
            KeyState::Pressed => {
                let about_key = match self.from_event.key {
                    Some(from_key) => from_key == event.key,
                    None => false,
                };
                if about_key && self.find_instance(event.key).is_none() {
                    if let Some(bound) = mod_state.test_modifiers(&self.from_event.modifiers) {
                        self.press(bound, event, output_queue, shell_commands);
                        return ManipulationResult::Applied;
                    }
                }
                ManipulationResult::Skipped
            },
            KeyState::Released => {
                match self.find_instance(event.key) {
                    Some(at) => {
                        assert(self@.live.len() == self.instances@.len());
                        let mut instance = self.instances.remove(at);
                        instance.release(&event.time, output_queue);
                        assert(self@.live =~= before.live.remove(at as int));
                        ManipulationResult::Applied
                    },
                    None => ManipulationResult::Skipped,
                }
            },
            _ => ManipulationResult::Skipped,
        }
    }

    /// The rules of a configuration, in the order in which it lists
    /// them.
    pub fn manipulators_from_config(kb_complex_modifications: &KBComplexModifications) -> (rules:
        Result<Vec<ComplexManipulator>, ConfigError>)
        ensures
            match rules {
                Ok(rules) => {
                    let listed = manipulators_listed(
                        kb_complex_modifications.rules@,
                        kb_complex_modifications.rules@.len() as int,
                    );
                    &&& rules_error(listed, listed.len() as int) is None
                    &&& rules@.len() == listed.len()
                    &&& forall|i: int|
                        0 <= i < rules@.len() ==> Self::reads((#[trigger] rules@[i])@, listed[i])
                },
                Err(error) => {
                    let listed = manipulators_listed(
                        kb_complex_modifications.rules@,
                        kb_complex_modifications.rules@.len() as int,
                    );
                    rules_error(listed, listed.len() as int) == Some(error)
                },
            },
    {
        let listed = list_manipulators(kb_complex_modifications);
        let mut rules: Vec<ComplexManipulator> = Vec::new();
        let mut i: usize = 0;
        while i < listed.len()
            invariant
                i <= listed@.len(),
                refs_to(listed@) == manipulators_listed(
                    kb_complex_modifications.rules@,
                    kb_complex_modifications.rules@.len() as int,
                ),
                rules_error(refs_to(listed@), i as int) is None,
                rules@.len() == i,
                forall|j: int| 0 <= j < i ==> Self::reads((#[trigger] rules@[j])@, *listed@[j]),
            decreases listed@.len() - i,
        {
            match ComplexManipulator::new(listed[i]) {
                Ok(rule) => {
                    rules.push(rule);
                },
                Err(error) => {
                    proof {
                        lemma_rules_error_stays(refs_to(listed@), i + 1, listed@.len() as int);
                    }
                    return Err(error);
                },
            }
            i += 1;
        }
        Ok(rules)
    }
}

/// Once an error has been met among the steps, it stays the first.
pub proof fn lemma_steps_error_stays(steps: Seq<KBToDefinition>, n: int, m: int)
    requires
        steps_error(steps, n) is Some,
        n <= m,
    ensures
        steps_error(steps, m) == steps_error(steps, n),
    decreases m - n,
{
    if n < m {
        lemma_steps_error_stays(steps, n, m - 1);
    }
}


/// The manipulators of the first `n` rule groups of a configuration, one
/// group after the other.
pub open spec fn manipulators_listed(groups: Seq<KBComplexRule>, n: int) -> Seq<KBManipulator>
    decreases n,
{
    if n <= 0 {
        Seq::empty()
    } else {
        manipulators_listed(groups, n - 1) + groups[n - 1].manipulators@
    }
}

/// The first error among the first `n` rules of a configuration.
pub open spec fn rules_error(rules: Seq<KBManipulator>, n: int) -> Option<ConfigError>
    decreases n,
{
    if n <= 0 {
        None
    } else if rules_error(rules, n - 1) is Some {
        rules_error(rules, n - 1)
    } else {
        ComplexManipulator::error_in(rules[n - 1])
    }
}

/// Once an error has been met among the rules, it stays the first.
pub proof fn lemma_rules_error_stays(rules: Seq<KBManipulator>, n: int, m: int)
    requires
        rules_error(rules, n) is Some,
        n <= m,
    ensures
        rules_error(rules, m) == rules_error(rules, n),
    decreases m - n,
{
    if n < m {
        lemma_rules_error_stays(rules, n, m - 1);
    }
}

/// What a sequence of references refers to.
pub open spec fn refs_to(refs: Seq<&KBManipulator>) -> Seq<KBManipulator> {
    Seq::new(refs.len(), |i: int| *refs[i])
}

fn list_manipulators(kb_complex_modifications: &KBComplexModifications) -> (listed: Vec<
    &KBManipulator,
>)
    ensures
        refs_to(listed@) == manipulators_listed(
            kb_complex_modifications.rules@,
            kb_complex_modifications.rules@.len() as int,
        ),
{
    let groups = &kb_complex_modifications.rules;
    let mut listed: Vec<&KBManipulator> = Vec::new();
    let mut g: usize = 0;
    assert(refs_to(listed@) =~= manipulators_listed(groups@, 0));
    while g < groups.len()
        invariant
            g <= groups@.len(),
            refs_to(listed@) == manipulators_listed(groups@, g as int),
        decreases groups@.len() - g,
    {
        let group = &groups[g].manipulators;
        let ghost before = refs_to(listed@);
        let mut k: usize = 0;
        assert(refs_to(listed@) =~= before + group@.take(0));
        while k < group.len()
            invariant
                k <= group@.len(),
                refs_to(listed@) == before + group@.take(k as int),
            decreases group@.len() - k,
        {
            let ghost listed_here = listed@;
            listed.push(&group[k]);
            assert(refs_to(listed@) =~= refs_to(listed_here).push(group@[k as int]));
            assert(group@.take(k + 1) =~= group@.take(k as int).push(group@[k as int]));
            assert(refs_to(listed@) =~= before + group@.take(k + 1));
            k += 1;
        }
        assert(group@.take(k as int) =~= group@);
        g += 1;
    }
    listed
}

} // verus!
