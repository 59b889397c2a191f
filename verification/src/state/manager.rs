//! The engine: one event in, the events that it becomes out.

use crate::event::{Event, InputEvent, KeyEvent, TimeVal, EV_KEY};
use crate::karabiner::config::{ConfigError, KBProfile, KBSimpleModification};
use crate::key_state::KeyState;
use crate::keys::KeyCode;
use crate::state::complex_manipulator::{
    first_live, manipulators_listed, rules_error, ComplexManipulator, ManipulationResult,
    ManipulatorView,
};
use crate::state::instance::restamped;
use crate::state::modifier::ModifierKey;
use crate::state::modifier_state::{after_event, ModifierState};
use crate::state::simple_manipulator::{substitute, substituted, SimpleManipulator};
use vstd::prelude::*;

verus! {

/// The engine as plain values: the modifier keys that are down, oldest
/// press first, the rules with their instances at work, and the lazy
/// events that wait for the next press or release.
#[verifier::ext_equal]
pub struct EngineView {
    pub pressed: Seq<ModifierKey>,
    pub simple: Seq<SimpleManipulator>,
    pub complex: Seq<ManipulatorView>,
    pub withheld: Seq<KeyEvent>,
}

/// What one event brings about: the engine after it, the events to
/// send, in order, and the commands to run.
#[verifier::ext_equal]
pub struct Stepped {
    pub engine: EngineView,
    pub sent: Seq<KeyEvent>,
    pub commands: Seq<String>,
}

/// Whether some rule is at work for `key`.
pub open spec fn captured(complex: Seq<ManipulatorView>, key: KeyCode) -> bool {
    exists|i: int| 0 <= i < complex.len() && first_live((#[trigger] complex[i]).live, key) is Some
}

/// The first rule at or after `start` that deals with the event.
pub open spec fn taker_from(
    complex: Seq<ManipulatorView>,
    pressed: Seq<ModifierKey>,
    event: KeyEvent,
    start: int,
) -> Option<int>
    decreases complex.len() - start,
{
    if start < 0 || start >= complex.len() {
        None
    } else if complex[start].handles(pressed, event) {
        Some(start)
    } else {
        taker_from(complex, pressed, event, start + 1)
    }
}

/// The lazy events among those that a rule sends, in their order: they
/// are held back.
pub open spec fn lazy_among(events: Seq<KeyEvent>) -> Seq<KeyEvent> {
    events.filter(|event: KeyEvent| event.lazy)
}

/// The events among those that a rule sends that are not lazy, in their
/// order: they go out at once.
pub open spec fn eager_among(events: Seq<KeyEvent>) -> Seq<KeyEvent> {
    events.filter(|event: KeyEvent| !event.lazy)
}

/// Parting a run of events that ends in `last` into lazy and eager.
pub proof fn lemma_part_push(events: Seq<KeyEvent>, last: KeyEvent)
    ensures
        lazy_among(events.push(last)) == if last.lazy {
            lazy_among(events).push(last)
        } else {
            lazy_among(events)
        },
        eager_among(events.push(last)) == if last.lazy {
            eager_among(events)
        } else {
            eager_among(events).push(last)
        },
{
    reveal(Seq::filter);
    assert(events.push(last).drop_last() =~= events);
}

/// The input events that tell of the given key events.
pub open spec fn inputs_of(events: Seq<KeyEvent>) -> Seq<InputEvent> {
    Seq::new(events.len(), |i: int| events[i].as_input())
}

impl EngineView {
    /// The rule that the event goes to: the first one, in the order of
    /// the configuration, that deals with it. A press of a key that
    /// some rule is at work for goes to no rule.
    pub open spec fn route(self, event: KeyEvent) -> Option<int> {
        if event.state is Pressed && captured(self.complex, event.key) {
            None
        } else {
            taker_from(self.complex, self.pressed, event, 0)
        }
    }

    /// The event as it is passed on when no rule takes it: with the key
    /// that the substitutions give for its key.
    pub open spec fn passed_on(self, event: KeyEvent) -> KeyEvent {
        KeyEvent { key: substituted(self.simple, event.key), ..event }
    }

    /// Whether an event is one that the engine works on: a press or a
    /// release. An autorepeat, or an event with an unknown value, is
    /// not.
    pub open spec fn works_on(event: KeyEvent) -> bool {
        event.state is Pressed || event.state is Released
    }

    /// One key event.
    ///
    /// An event that is neither a press nor a release is passed on as
    /// it came, alone, and changes nothing: no substitution is applied
    /// to it, no rule sees it, and the modifier keys that are down stay
    /// as they were.
    ///
    /// A press or a release first sends the events that were held
    /// back, with its own time on them. Then, if a rule takes it, the
    /// rule says what follows: what the rule sends goes out, but for
    /// the lazy events among it, which are held back until the next
    /// press or release; the event itself tells the modifier keys that
    /// are down. If no rule takes it, the event is passed on after
    /// substitution, and the event as passed on tells the modifier keys
    /// that are down.
    pub open spec fn step(self, event: KeyEvent) -> Stepped {
        if !Self::works_on(event) {
            Stepped { engine: self, sent: seq![event], commands: Seq::empty() }
        } else {
            match self.route(event) {
                Some(at) => {
                    let applied = self.complex[at].applied(self.pressed, event);
                    Stepped {
                        engine: EngineView {
                            pressed: after_event(self.pressed, event),
                            complex: self.complex.update(at, applied.manipulator),
                            withheld: lazy_among(applied.sent),
                            ..self
                        },
                        sent: restamped(self.withheld, event.time) + eager_among(applied.sent),
                        commands: applied.commands,
                    }
                },
                None => Stepped {
                    engine: EngineView {
                        pressed: after_event(self.pressed, self.passed_on(event)),
                        withheld: Seq::empty(),
                        ..self
                    },
                    sent: restamped(self.withheld, event.time) + seq![self.passed_on(event)],
                    commands: Seq::empty(),
                },
            }
        }
    }

    /// One input event. Only an event of a key reaches the rules; any
    /// other event sends nothing and changes nothing.
    pub open spec fn fed(self, input: InputEvent) -> Stepped {
        if input.is_key() {
            self.step(KeyEvent::of_input(input))
        } else {
            Stepped { engine: self, sent: Seq::empty(), commands: Seq::empty() }
        }
    }

    /// What comes from the reading side. A timeout sends nothing and
    /// changes nothing.
    pub open spec fn handled(self, event: Event) -> Stepped {
        match event {
            Event::InputEvent(input) => self.fed(input),
            Event::Timeout => Stepped { engine: self, sent: Seq::empty(), commands: Seq::empty() },
        }
    }
}

/// What the engine hands back for one event.
#[derive(Debug)]
pub struct MappedEvents {
    /// The events to write to the output device, in this order: first
    /// what was held back, then what the event itself became.
    pub events: Vec<InputEvent>,
    /// The commands to start, in this order. The engine starts none
    /// itself.
    pub shell_commands: Vec<String>,
}

/// The engine: the rules of one profile, and what it has to remember
/// between events.
#[derive(Debug)]
pub struct StateManager {
    modifier_state: ModifierState,
    simple_manipulators: Vec<SimpleManipulator>,
    complex_manipulators: Vec<ComplexManipulator>,
    /// The lazy events that wait for the next press or release.
    output_queue: Vec<KeyEvent>,
}

impl View for StateManager {
    type V = EngineView;

    closed spec fn view(&self) -> EngineView {
        EngineView {
            pressed: self.modifier_state@,
            simple: self.simple_manipulators@,
            complex: self.complex_manipulators@.map_values(|rule: ComplexManipulator| rule@),
            withheld: self.output_queue@,
        }
    }
}

/// The first error among the first `n` substitutions of a
/// configuration.
pub open spec fn substitutions_error(list: Seq<KBSimpleModification>, n: int) -> Option<ConfigError>
    decreases n,
{
    if n <= 0 {
        None
    } else if substitutions_error(list, n - 1) is Some {
        substitutions_error(list, n - 1)
    } else {
        match SimpleManipulator::read(list[n - 1]) {
            Ok(_) => None,
            Err(error) => Some(error),
        }
    }
}

/// Once an error has been met among the substitutions, it stays the
/// first.
pub proof fn lemma_substitutions_error_stays(list: Seq<KBSimpleModification>, n: int, m: int)
    requires
        substitutions_error(list, n) is Some,
        n <= m,
    ensures
        substitutions_error(list, m) == substitutions_error(list, n),
    decreases m - n,
{
    if n < m {
        lemma_substitutions_error_stays(list, n, m - 1);
    }
}

/// The first error in a profile: among its substitutions, or else among
/// its rules.
pub open spec fn profile_error(profile: KBProfile) -> Option<ConfigError> {
    let simple = profile.simple_modifications@;
    let listed = manipulators_listed(
        profile.complex_modifications.rules@,
        profile.complex_modifications.rules@.len() as int,
    );
    if substitutions_error(simple, simple.len() as int) is Some {
        substitutions_error(simple, simple.len() as int)
    } else {
        rules_error(listed, listed.len() as int)
    }
}

/// Whether an engine is what a profile says, with no modifier key down,
/// no rule at work and no event held back.
pub open spec fn reads_profile(engine: EngineView, profile: KBProfile) -> bool {
    let listed = manipulators_listed(
        profile.complex_modifications.rules@,
        profile.complex_modifications.rules@.len() as int,
    );
    &&& engine.pressed == Seq::<ModifierKey>::empty()
    &&& engine.withheld == Seq::<KeyEvent>::empty()
    &&& engine.simple.len() == profile.simple_modifications@.len()
    &&& forall|i: int|
        0 <= i < engine.simple.len() ==> SimpleManipulator::read(profile.simple_modifications@[i])
            == Ok::<SimpleManipulator, ConfigError>(#[trigger] engine.simple[i])
    &&& engine.complex.len() == listed.len()
    &&& forall|i: int|
        0 <= i < engine.complex.len() ==> ComplexManipulator::reads(
            #[trigger] engine.complex[i],
            listed[i],
        )
}

impl StateManager {
    /// Builds the engine for a profile.
    pub fn from_profile(kb_profile: &KBProfile) -> (engine: Result<StateManager, ConfigError>)
        ensures
            match engine {
                Ok(engine) => profile_error(*kb_profile) is None && reads_profile(
                    engine@,
                    *kb_profile,
                ),
                Err(error) => profile_error(*kb_profile) == Some(error),
            },
    {
        let list = &kb_profile.simple_modifications;
        let mut simple_manipulators: Vec<SimpleManipulator> = Vec::new();
        let mut i: usize = 0;
        while i < list.len()
            invariant
                i <= list@.len(),
                list@ == kb_profile.simple_modifications@,
                substitutions_error(list@, i as int) is None,
                simple_manipulators@.len() == i,
                forall|j: int|
                    0 <= j < i ==> SimpleManipulator::read(list@[j]) == Ok::<
                        SimpleManipulator,
                        ConfigError,
                    >(#[trigger] simple_manipulators@[j]),
            decreases list@.len() - i,
        {
            match SimpleManipulator::from_config(&list[i]) {
                Ok(manipulator) => {
                    simple_manipulators.push(manipulator);
                },
                Err(error) => {
                    proof {
                        lemma_substitutions_error_stays(list@, i + 1, list@.len() as int);
                    }
                    return Err(error);
                },
            }
            i += 1;
        }
        let complex_manipulators = match ComplexManipulator::manipulators_from_config(
            &kb_profile.complex_modifications,
        ) {
            Ok(rules) => rules,
            Err(error) => { return Err(error); },
        };
        let engine = StateManager {
            modifier_state: ModifierState::new(),
            simple_manipulators,
            complex_manipulators,
            output_queue: Vec::new(),
        };
        Ok(engine)
    }

    /// Whether some rule is at work for `key`.
    fn is_captured(&self, key: KeyCode) -> (yes: bool)
        ensures
            yes == captured(self@.complex, key),
    {
        let mut i: usize = 0;
        while i < self.complex_manipulators.len()
            invariant
                i <= self.complex_manipulators@.len(),
                self@.complex.len() == self.complex_manipulators@.len(),
                forall|j: int| 0 <= j < i ==> first_live((#[trigger] self@.complex[j]).live, key) is None,
            decreases self.complex_manipulators@.len() - i,
        {
            if self.complex_manipulators[i].find_instance(key).is_some() {
                assert(first_live(self@.complex[i as int].live, key) is Some);
                return true;
            }
            i += 1;
        }
        false
    }

    /// Applies the first substitution that is about the key of the
    /// event.
    fn apply_simple_modifications(&self, key_event: &mut KeyEvent)
        ensures
            *final(key_event) == self@.passed_on(*old(key_event)),
    {
        key_event.key = substitute(&self.simple_manipulators, key_event.key);
    }

    /// Moves the events that were held back to the end of
    /// `output_queue`, with the given time on them.
    fn flush(&mut self, time: &TimeVal, output_queue: &mut Vec<KeyEvent>)
        ensures
            final(self)@ == (EngineView { withheld: Seq::empty(), ..old(self)@ }),
            final(output_queue)@ == old(output_queue)@ + restamped(old(self)@.withheld, *time),
    {
        let ghost queue_before = output_queue@;
        let mut i: usize = 0;
        assert(output_queue@ =~= queue_before + restamped(self.output_queue@.take(0), *time));
        while i < self.output_queue.len()
            invariant
                i <= self.output_queue@.len(),
                self@ == old(self)@,
                output_queue@ == queue_before + restamped(self.output_queue@.take(i as int), *time),
            decreases self.output_queue@.len() - i,
        {
            let event = self.output_queue[i];
            output_queue.push(KeyEvent::new(time, &event.key, event.state, event.lazy));
            assert(output_queue@ =~= queue_before + restamped(
                self.output_queue@.take(i + 1),
                *time,
            ));
            i += 1;
        }
        assert(self.output_queue@.take(i as int) =~= self.output_queue@);
        self.output_queue.clear();
    }

    /// Shows the event to the rules, in their order, until one deals
    /// with it.
    fn apply_complex_modifications(
        &mut self,
        key_event: &KeyEvent,
        output_queue: &mut Vec<KeyEvent>,
        shell_commands: &mut Vec<String>,
    ) -> (applied: bool)
        requires
            old(output_queue)@.len() == 0,
            old(shell_commands)@.len() == 0,
        ensures
            applied == old(self)@.route(*key_event).is_some(),
            final(self)@.pressed == old(self)@.pressed,
            final(self)@.simple == old(self)@.simple,
            final(self)@.withheld == old(self)@.withheld,
            match old(self)@.route(*key_event) {
                Some(at) => {
                    let applied = old(self)@.complex[at].applied(old(self)@.pressed, *key_event);
                    &&& 0 <= at < old(self)@.complex.len()
                    &&& final(self)@.complex == old(self)@.complex.update(at, applied.manipulator)
                    &&& final(output_queue)@ == applied.sent
                    &&& final(shell_commands)@ == applied.commands
                },
                None => {
                    &&& final(self)@.complex == old(self)@.complex
                    &&& final(output_queue)@.len() == 0
                    &&& final(shell_commands)@.len() == 0
                },
            },
    {
        let ghost before = self@;
        if let KeyState::Pressed = key_event.state {
            if self.is_captured(key_event.key) {
                return false;
            }
        }
        let mut i: usize = 0;
        while i < self.complex_manipulators.len()
            invariant
                i <= self.complex_manipulators@.len(),
                before == old(self)@,
                self@ == before,
                before.complex.len() == self.complex_manipulators@.len(),
                output_queue@.len() == 0,
                shell_commands@.len() == 0,
                before.route(*key_event) == taker_from(
                    before.complex,
                    before.pressed,
                    *key_event,
                    i as int,
                ),
            decreases self.complex_manipulators@.len() - i,
        {
            let ghost rules_here = self.complex_manipulators@;
            let ghost rule = self.complex_manipulators@[i as int]@;
            assert(rule == before.complex[i as int]);
            let result = self.complex_manipulators[i].apply(
                &self.modifier_state,
                key_event,
                output_queue,
                shell_commands,
            );
            proof {
                let applied = rule.applied(before.pressed, *key_event);
                assert(self.complex_manipulators@ =~= rules_here.update(
                    i as int,
                    self.complex_manipulators@[i as int],
                ));
                assert(self@.complex =~= before.complex.update(i as int, applied.manipulator));
                assert(output_queue@ =~= applied.sent);
                assert(shell_commands@ =~= applied.commands);
            }
            match result {
                ManipulationResult::Skipped => {
                    assert(self@.complex =~= before.complex);
                },
                ManipulationResult::Applied => {
                    // Only apply the first complex manipulator that matches.
                    return true;
                },
            }
            i += 1;
        }
        false
    }

    /// Maps one input event. The events that it becomes come back in
    /// the order in which they are to be written; the caller writes a
    /// synchronization event after them. Lazy events stay behind and
    /// come back ahead of what the next press or release becomes.
    pub fn get_mapped_events(&mut self, input_event: InputEvent) -> (mapped: MappedEvents)
        ensures
            final(self)@ == old(self)@.fed(input_event).engine,
            mapped.events@ == inputs_of(old(self)@.fed(input_event).sent),
            mapped.shell_commands@ == old(self)@.fed(input_event).commands,
    {
        let mut output_queue: Vec<KeyEvent> = Vec::new();
        let mut shell_commands: Vec<String> = Vec::new();
        let ghost before = self@;
        if input_event.event_type == EV_KEY {
            let mut key_event = KeyEvent::from_event(input_event);
            match key_event.state {
                KeyState::Pressed | KeyState::Released => {
                    // What was held back goes out first.
                    self.flush(&key_event.time, &mut output_queue);
                    let ghost flushed = output_queue@;
                    // Process our complex manipulators.
                    let mut produced: Vec<KeyEvent> = Vec::new();
                    let applied = self.apply_complex_modifications(
                        &key_event,
                        &mut produced,
                        &mut shell_commands,
                    );
                    if applied {
                        // Lazy events wait for the next press or release.
                        let mut i: usize = 0;
                        assert(produced@.take(0) =~= Seq::<KeyEvent>::empty());
                        assert(lazy_among(produced@.take(0)) =~= Seq::<KeyEvent>::empty()) by {
                            reveal(Seq::filter);
                        }
                        assert(output_queue@ =~= flushed + eager_among(produced@.take(0))) by {
                            reveal(Seq::filter);
                        }
                        while i < produced.len()
                            invariant
                                i <= produced@.len(),
                                self.output_queue@ == lazy_among(produced@.take(i as int)),
                                output_queue@ == flushed + eager_among(produced@.take(i as int)),
                                self.modifier_state@ == before.pressed,
                                self@.simple == before.simple,
                                self@.complex == before.step(key_event).engine.complex,
                            decreases produced@.len() - i,
                        {
                            let event = produced[i];
                            proof {
                                lemma_part_push(produced@.take(i as int), event);
                                assert(produced@.take(i as int).push(event) =~= produced@.take(
                                    i + 1,
                                ));
                            }
                            if event.lazy {
                                self.output_queue.push(event);
                            } else {
                                output_queue.push(event);
                            }
                            i += 1;
                        }
                        assert(produced@.take(i as int) =~= produced@);
                    } else {
                        // If no complex manipulators were applied, perform
                        // simple remapping and just return the event.
                        self.apply_simple_modifications(&mut key_event);
                        output_queue.push(key_event);
                        assert(output_queue@ =~= flushed + seq![key_event]);
                        assert(shell_commands@ =~= Seq::<String>::empty());
                    }
                    // Update our modifier state.
                    self.modifier_state.update(&key_event);
                },
                _ => {
                    output_queue.push(key_event);
                    assert(output_queue@ =~= seq![key_event]);
                    assert(shell_commands@ =~= Seq::<String>::empty());
                },
            }
        } else {
            assert(output_queue@ =~= Seq::<KeyEvent>::empty());
            assert(shell_commands@ =~= Seq::<String>::empty());
        }
        let mut events: Vec<InputEvent> = Vec::new();
        let mut i: usize = 0;
        assert(events@ =~= inputs_of(output_queue@.take(0)));
        while i < output_queue.len()
            invariant
                i <= output_queue@.len(),
                events@ == inputs_of(output_queue@.take(i as int)),
            decreases output_queue@.len() - i,
        {
            events.push(output_queue[i].create_event());
            assert(events@ =~= inputs_of(output_queue@.take(i + 1)));
            i += 1;
        }
        assert(output_queue@.take(i as int) =~= output_queue@);
        MappedEvents { events, shell_commands }
    }

    /// Deals with what comes from the reading side: an input event is
    /// mapped, a timeout is let go.
    pub fn handle_event(&mut self, event: Event) -> (mapped: MappedEvents)
        ensures
            final(self)@ == old(self)@.handled(event).engine,
            mapped.events@ == inputs_of(old(self)@.handled(event).sent),
            mapped.shell_commands@ == old(self)@.handled(event).commands,
    {
        match event {
            Event::InputEvent(input_event) => self.get_mapped_events(input_event),
            Event::Timeout => {
                let mapped = MappedEvents { events: Vec::new(), shell_commands: Vec::new() };
                assert(mapped.events@ =~= inputs_of(Seq::<KeyEvent>::empty()));
                mapped
            },
        }
    }

    /// The lazy events that wait for the next press or release, in the
    /// order in which they will go out.
    pub fn withheld_events(&self) -> (events: Vec<KeyEvent>)
        ensures
            events@ == self@.withheld,
    {
        let mut events: Vec<KeyEvent> = Vec::new();
        let mut i: usize = 0;
        while i < self.output_queue.len()
            invariant
                i <= self.output_queue@.len(),
                events@ == self.output_queue@.take(i as int),
            decreases self.output_queue@.len() - i,
        {
            events.push(self.output_queue[i]);
            assert(events@ =~= self.output_queue@.take(i + 1));
            i += 1;
        }
        assert(self.output_queue@.take(i as int) =~= self.output_queue@);
        events
    }

    /// The modifier keys that are down, oldest press first.
    pub fn pressed_modifiers(&self) -> (keys: Vec<ModifierKey>)
        ensures
            keys@ == self@.pressed,
    {
        self.modifier_state.pressed()
    }
}

} // verus!
