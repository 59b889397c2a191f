//! What holds of the rules and of the engine, for every state and
//! every event.

use crate::event::{Event, KeyEvent, TimeVal};
use crate::karabiner::modifier::KBModifier;
use crate::key_state::KeyState;
use crate::keys::KeyCode;
use crate::state::complex_manipulator::{
    fired, first_live, first_live_from, key_events, key_release_waits, modifier_release_waits,
    restores_at_once, step_deferred, step_sent, steps_deferred, steps_sent, ManipulationResult,
    ManipulatorView,
};
use crate::state::from_modifiers::FromModifiers;
use crate::state::instance::{modifier_events, restamped, InstanceView};
use crate::state::manager::{
    captured, eager_among, lazy_among, lemma_part_push, taker_from, EngineView,
};
use crate::state::modifier::ModifierKey;
use crate::state::modifier_state::{
    after_event, binds, bound_among, lemma_bound_among_all, lemma_bound_among_ordered,
    mandatory_met, none_unaccounted, tested,
};
use crate::state::sequence::lemma_without_no_duplicates;
use crate::state::simple_manipulator::{lemma_substituted_same, substituted};
use crate::state::to_event::ToEvent;
use vstd::prelude::*;

verus! {

/// The bound keys among a set of candidates are none, if no key is
/// bound.
proof fn lemma_bound_among_none(
    candidates: Seq<ModifierKey>,
    pressed: Seq<ModifierKey>,
    modifiers: FromModifiers,
)
    requires
        forall|key: ModifierKey| !binds(pressed, modifiers, key),
    ensures
        bound_among(candidates, pressed, modifiers) == Seq::<ModifierKey>::empty(),
    decreases candidates.len(),
{
    reveal(Seq::filter);
    if candidates.len() > 0 {
        lemma_bound_among_none(candidates.drop_last(), pressed, modifiers);
    }
}

/// A rule without a modifier clause applies exactly when no modifier
/// key is down, and then binds none.
pub proof fn law_bare_clause(pressed: Seq<ModifierKey>, modifiers: FromModifiers)
    requires
        modifiers.mandatory@.len() == 0,
        modifiers.optional@.len() == 0,
    ensures
        tested(pressed, modifiers) == if pressed.len() == 0 {
            Some(Seq::<ModifierKey>::empty())
        } else {
            None
        },
{
    assert forall|key: ModifierKey| !modifiers.mentions(key) by {}
    assert forall|key: ModifierKey| !binds(pressed, modifiers, key) by {}
    if pressed.len() == 0 {
        assert(mandatory_met(pressed, modifiers));
        assert(none_unaccounted(pressed, modifiers));
        lemma_bound_among_none(pressed, pressed, modifiers);
    } else {
        assert(pressed.contains(pressed[0]));
        assert(!none_unaccounted(pressed, modifiers));
    }
}

/// A rule whose only modifier is an optional `any` applies whatever
/// modifier keys are down, and binds none of them.
pub proof fn law_optional_any(pressed: Seq<ModifierKey>, modifiers: FromModifiers)
    requires
        modifiers.mandatory@.len() == 0,
        modifiers.is_optional(KBModifier::Any),
    ensures
        tested(pressed, modifiers) == Some(Seq::<ModifierKey>::empty()),
{
    assert forall|key: ModifierKey| !binds(pressed, modifiers, key) by {}
    assert(mandatory_met(pressed, modifiers));
    lemma_bound_among_none(pressed, pressed, modifiers);
}

/// A rule with a mandatory `any` applies whatever modifier keys are
/// down, and binds every one of them, oldest press first.
pub proof fn law_mandatory_any(pressed: Seq<ModifierKey>, modifiers: FromModifiers)
    requires
        modifiers.is_mandatory(KBModifier::Any),
    ensures
        tested(pressed, modifiers) == Some(pressed),
{
    lemma_bound_among_all(pressed, pressed, modifiers);
}

/// The keys that a rule binds are down, and they come in the order in
/// which they went down.
pub proof fn law_bound_in_press_order(
    pressed: Seq<ModifierKey>,
    modifiers: FromModifiers,
    a: int,
    b: int,
)
    requires
        pressed.no_duplicates(),
        tested(pressed, modifiers) is Some,
        0 <= a < b < tested(pressed, modifiers).unwrap().len(),
    ensures
        ({
            let bound = tested(pressed, modifiers).unwrap();
            &&& pressed.contains(bound[a])
            &&& pressed.contains(bound[b])
            &&& pressed.index_of(bound[a]) < pressed.index_of(bound[b])
        }),
{
    lemma_bound_among_ordered(pressed, pressed, modifiers, a, b);
}

/// Where the first instance for a key stands, there is an instance for
/// the key, and none before it; where none stands, there is none.
pub proof fn lemma_first_live(live: Seq<InstanceView>, key: KeyCode, start: int)
    requires
        0 <= start,
    ensures
        match first_live_from(live, key, start) {
            Some(at) => {
                &&& start <= at < live.len()
                &&& live[at].source_key == key
                &&& forall|i: int| start <= i < at ==> (#[trigger] live[i]).source_key != key
            },
            None => forall|i: int| start <= i < live.len() ==> (#[trigger] live[i]).source_key != key,
        },
    decreases live.len() - start,
{
    if start < live.len() && live[start].source_key != key {
        lemma_first_live(live, key, start + 1);
    }
}

/// The rule that takes an event deals with it, and no rule before it
/// does; where no rule takes the event, none deals with it.
pub proof fn lemma_taker(
    complex: Seq<ManipulatorView>,
    pressed: Seq<ModifierKey>,
    event: KeyEvent,
    start: int,
)
    requires
        0 <= start,
    ensures
        match taker_from(complex, pressed, event, start) {
            Some(at) => {
                &&& start <= at < complex.len()
                &&& complex[at].handles(pressed, event)
                &&& forall|i: int| start <= i < at ==> !(#[trigger] complex[i]).handles(pressed, event)
            },
            None => forall|i: int|
                start <= i < complex.len() ==> !(#[trigger] complex[i]).handles(pressed, event),
        },
    decreases complex.len() - start,
{
    if start < complex.len() && !complex[start].handles(pressed, event) {
        lemma_taker(complex, pressed, event, start + 1);
    }
}

/// The first rule that matches wins: the rule that an event goes to
/// deals with it, and no rule listed before it does.
pub proof fn law_first_match_wins(engine: EngineView, event: KeyEvent)
    ensures
        engine.route(event) matches Some(at) ==> {
            &&& 0 <= at < engine.complex.len()
            &&& engine.complex[at].handles(engine.pressed, event)
            &&& forall|i: int|
                0 <= i < at ==> !(#[trigger] engine.complex[i]).handles(engine.pressed, event)
        },
{
    lemma_taker(engine.complex, engine.pressed, event, 0);
}

/// An event that is neither a press nor a release is passed on as it
/// came, alone: it is not substituted, no rule sees it, no command is
/// run, and the engine stays as it was, with the modifier keys that are
/// down and the events that are held back.
pub proof fn law_other_events_pass_unchanged(engine: EngineView, event: KeyEvent)
    requires
        !(event.state is Pressed),
        !(event.state is Released),
    ensures
        engine.step(event).sent == seq![event],
        engine.step(event).commands == Seq::<String>::empty(),
        engine.step(event).engine == engine,
{
}

/// A press or a release that no rule takes is passed on with the key
/// that the substitutions give for its key, after the events that were
/// held back; no rule changes, no command is run and nothing is held
/// back any more. A key whose substitution is the key itself, or that
/// has none, is passed on as it came.
pub proof fn law_fall_through(engine: EngineView, event: KeyEvent)
    requires
        event.state is Pressed || event.state is Released,
        engine.route(event) is None,
    ensures
        engine.step(event).sent == restamped(engine.withheld, event.time) + seq![
            KeyEvent { key: substituted(engine.simple, event.key), ..event },
        ],
        engine.withheld.len() == 0 ==> engine.step(event).sent == seq![
            KeyEvent { key: substituted(engine.simple, event.key), ..event },
        ],
        engine.step(event).commands == Seq::<String>::empty(),
        engine.step(event).engine.complex == engine.complex,
        engine.step(event).engine.simple == engine.simple,
        engine.step(event).engine.withheld == Seq::<KeyEvent>::empty(),
        (forall|i: int|
            0 <= i < engine.simple.len() && (#[trigger] engine.simple[i]).from == event.key
                ==> engine.simple[i].to == event.key) ==> engine.step(event).sent == restamped(
            engine.withheld,
            event.time,
        ) + seq![event],
{
    if forall|i: int|
        0 <= i < engine.simple.len() && (#[trigger] engine.simple[i]).from == event.key
            ==> engine.simple[i].to == event.key {
        lemma_substituted_same(engine.simple, event.key);
    }
    if engine.withheld.len() == 0 {
        assert(restamped(engine.withheld, event.time) + seq![engine.passed_on(event)] =~= seq![
            engine.passed_on(event),
        ]);
    }
}

/// A rule without a modifier clause leaves a press alone while a
/// modifier key is down: if every rule about the key is such a rule,
/// the press is passed on, after the events that were held back, and
/// the modifier keys that are down change only as the passed-on event
/// itself says.
pub proof fn law_bare_rules_yield_to_modifiers(engine: EngineView, event: KeyEvent)
    requires
        event.state is Pressed,
        engine.pressed.len() > 0,
        forall|i: int|
            0 <= i < engine.complex.len() && (#[trigger] engine.complex[i]).from.key == Some(
                event.key,
            ) ==> engine.complex[i].from.modifiers.mandatory@.len() == 0
                && engine.complex[i].from.modifiers.optional@.len() == 0,
    ensures
        engine.route(event) is None,
        engine.step(event).sent == restamped(engine.withheld, event.time) + seq![
            engine.passed_on(event),
        ],
        engine.step(event).engine.complex == engine.complex,
        engine.step(event).engine.pressed == after_event(engine.pressed, engine.passed_on(event)),
{
    assert forall|i: int| 0 <= i < engine.complex.len() implies !(#[trigger] engine.complex[i]).handles(
        engine.pressed,
        event,
    ) by {
        if engine.complex[i].from.key == Some(event.key) {
            law_bare_clause(engine.pressed, engine.complex[i].from.modifiers);
        }
    }
    lemma_taker(engine.complex, engine.pressed, event, 0);
}

/// Parting a run of events into lazy and eager loses none and adds
/// none: every eager one and every lazy one is one of the run, the
/// eager ones are not lazy and the lazy ones are, and together they are
/// as many as the run.
pub proof fn lemma_parted(events: Seq<KeyEvent>)
    ensures
        lazy_among(events).len() + eager_among(events).len() == events.len(),
        forall|i: int|
            0 <= i < lazy_among(events).len() ==> (#[trigger] lazy_among(events)[i]).lazy
                && events.contains(lazy_among(events)[i]),
        forall|i: int|
            0 <= i < eager_among(events).len() ==> !(#[trigger] eager_among(events)[i]).lazy
                && events.contains(eager_among(events)[i]),
        (forall|i: int| 0 <= i < events.len() ==> !(#[trigger] events[i]).lazy) ==> eager_among(
            events,
        ) == events && lazy_among(events) == Seq::<KeyEvent>::empty(),
    decreases events.len(),
{
    reveal(Seq::filter);
    if events.len() > 0 {
        let before = events.drop_last();
        let last = events.last();
        lemma_parted(before);
        lemma_part_push(before, last);
        assert(before.push(last) =~= events);
        assert(events[events.len() - 1] == last);
        assert forall|i: int| 0 <= i < before.len() implies events.contains(#[trigger] before[i]) by {
            assert(events[i] == before[i]);
        }
        assert forall|i: int| 0 <= i < lazy_among(events).len() implies (#[trigger] lazy_among(
            events,
        )[i]).lazy && events.contains(lazy_among(events)[i]) by {
            if i < lazy_among(before).len() {
                let j = choose|j: int|
                    0 <= j < before.len() && before[j] == lazy_among(before)[i];
                assert(events[j] == before[j]);
            }
        }
        assert forall|i: int| 0 <= i < eager_among(events).len() implies !(#[trigger] eager_among(
            events,
        )[i]).lazy && events.contains(eager_among(events)[i]) by {
            if i < eager_among(before).len() {
                let j = choose|j: int|
                    0 <= j < before.len() && before[j] == eager_among(before)[i];
                assert(events[j] == before[j]);
            }
        }
        if forall|i: int| 0 <= i < events.len() ==> !(#[trigger] events[i]).lazy {
            assert forall|i: int| 0 <= i < before.len() implies !(#[trigger] before[i]).lazy by {
                assert(before[i] == events[i]);
            }
        }
    } else {
        assert(eager_among(events) =~= events);
        assert(lazy_among(events) =~= Seq::<KeyEvent>::empty());
    }
}

/// Lazy events wait for the next press or release. When a rule takes
/// a press or a release, the events that were held back go out first,
/// with the time of that event on them; then what the rule sends that
/// is not lazy, in its order; and what it sends that is lazy is held
/// back in its turn. Nothing is lost and nothing is sent twice. A rule
/// that sends no lazy event has all that it sends go out at once.
pub proof fn law_lazy_events_wait(engine: EngineView, event: KeyEvent)
    requires
        event.state is Pressed || event.state is Released,
        engine.route(event) is Some,
    ensures
        ({
            let at = engine.route(event).unwrap();
            let applied = engine.complex[at].applied(engine.pressed, event);
            let next = engine.step(event);
            &&& next.sent == restamped(engine.withheld, event.time) + eager_among(applied.sent)
            &&& next.engine.withheld == lazy_among(applied.sent)
            &&& next.sent.len() + next.engine.withheld.len() == engine.withheld.len()
                + applied.sent.len()
            &&& forall|i: int|
                0 <= i < next.engine.withheld.len() ==> (#[trigger] next.engine.withheld[i]).lazy
            &&& (forall|i: int| 0 <= i < applied.sent.len() ==> !(#[trigger] applied.sent[i]).lazy)
                ==> next.sent == restamped(engine.withheld, event.time) + applied.sent
                && next.engine.withheld == Seq::<KeyEvent>::empty()
        }),
{
    let at = engine.route(event).unwrap();
    let applied = engine.complex[at].applied(engine.pressed, event);
    lemma_parted(applied.sent);
}

proof fn lemma_eager_steps(to: Seq<ToEvent>, n: int, time: TimeVal)
    requires
        n <= to.len(),
        forall|i: int| 0 <= i < to.len() ==> !(#[trigger] to[i]).lazy,
    ensures
        forall|i: int|
            0 <= i < steps_sent(to, n, time).len() ==> !(#[trigger] steps_sent(to, n, time)[i]).lazy,
        forall|i: int|
            0 <= i < steps_deferred(to, n, time).len() ==> !(#[trigger] steps_deferred(
                to,
                n,
                time,
            )[i]).lazy,
    decreases n,
{
    if n > 0 {
        lemma_eager_steps(to, n - 1, time);
        assert(!to[n - 1].lazy);
    }
}

/// A rule without a lazy step sends no lazy event, neither when it
/// fires nor when its source key comes up: the engine holds nothing of
/// it back.
pub proof fn law_eager_rule_sends_no_lazy_event(
    to: Seq<ToEvent>,
    bound: Seq<ModifierKey>,
    press: KeyEvent,
    release_time: TimeVal,
)
    requires
        forall|i: int| 0 <= i < to.len() ==> !(#[trigger] to[i]).lazy,
    ensures
        lazy_among(fired(to, bound, press).sent) == Seq::<KeyEvent>::empty(),
        eager_among(fired(to, bound, press).sent) == fired(to, bound, press).sent,
        lazy_among(fired(to, bound, press).instance.released(release_time).sent) == Seq::<
            KeyEvent,
        >::empty(),
{
    let firing = fired(to, bound, press);
    let later = firing.instance.released(release_time).sent;
    let time = press.time;
    lemma_eager_steps(to, to.len() as int, time);
    if to.len() > 0 {
        let cancel = modifier_events(bound, KeyState::Released, time, false);
        let steps = steps_sent(to, to.len() as int, time);
        assert forall|i: int| 0 <= i < firing.sent.len() implies !(#[trigger] firing.sent[i]).lazy by {
            if i < cancel.len() {
                assert(firing.sent[i] == cancel[i]);
            } else if i < cancel.len() + steps.len() {
                assert(firing.sent[i] == steps[i - cancel.len()]);
            }
        }
    }
    let deferred = restamped(firing.instance.deferred_release_events, release_time);
    assert forall|i: int| 0 <= i < later.len() implies !(#[trigger] later[i]).lazy by {
        if i < deferred.len() {
            assert(later[i] == deferred[i]);
            assert(!firing.instance.deferred_release_events[i].lazy);
        }
    }
    lemma_parted(firing.sent);
    lemma_parted(later);
}

/// What is held back goes out with the next press or release, ahead of
/// everything else, in the order in which it was held back.
pub proof fn law_withheld_go_out_next(engine: EngineView, event: KeyEvent)
    requires
        event.state is Pressed || event.state is Released,
    ensures
        engine.step(event).sent.len() >= engine.withheld.len(),
        engine.step(event).sent.subrange(0, engine.withheld.len() as int) == restamped(
            engine.withheld,
            event.time,
        ),
{
    let flushed = restamped(engine.withheld, event.time);
    match engine.route(event) {
        Some(at) => {
            let applied = engine.complex[at].applied(engine.pressed, event);
            assert((flushed + eager_among(applied.sent)).subrange(0, flushed.len() as int)
                =~= flushed);
        },
        None => {
            assert((flushed + seq![engine.passed_on(event)]).subrange(0, flushed.len() as int)
                =~= flushed);
        },
    }
}

/// A rule whose only modifier is an optional `any` does the same
/// whatever modifier keys are down, and sends no event of its own for
/// a modifier key: what it sends on a press is what its steps send.
pub proof fn law_optional_any_fires_alike(
    rule: ManipulatorView,
    pressed: Seq<ModifierKey>,
    others: Seq<ModifierKey>,
    event: KeyEvent,
)
    requires
        rule.from.modifiers.mandatory@.len() == 0,
        rule.from.modifiers.is_optional(KBModifier::Any),
    ensures
        rule.applied(pressed, event) == rule.applied(others, event),
        event.state is Pressed && rule.handles(pressed, event) ==> rule.applied(pressed, event).sent
            == steps_sent(rule.to, rule.to.len() as int, event.time),
{
    law_optional_any(pressed, rule.from.modifiers);
    law_optional_any(others, rule.from.modifiers);
    if event.state is Pressed && rule.handles(pressed, event) {
        let press = fired(rule.to, Seq::<ModifierKey>::empty(), event);
        assert(modifier_events(
            Seq::<ModifierKey>::empty(),
            KeyState::Released,
            event.time,
            false,
        ) =~= Seq::<KeyEvent>::empty());
        assert(modifier_events(Seq::<ModifierKey>::empty(), KeyState::Pressed, event.time, false)
            =~= Seq::<KeyEvent>::empty());
        assert(press.sent =~= steps_sent(rule.to, rule.to.len() as int, event.time));
    }
}

/// A rule with one step that sends a key other than a modifier key,
/// without modifiers around it and without repeating, sends on a
/// press: a release for each bound key, oldest press first; the press
/// and the release of its key; and a press for each bound key, in the
/// same order. Nothing is left for the release of the source key.
pub proof fn law_cancel_send_restore(
    to: ToEvent,
    key: KeyCode,
    bound: Seq<ModifierKey>,
    event: KeyEvent,
    release_time: TimeVal,
)
    requires
        to.key == Some(key),
        ModifierKey::of_code(key.code) is None,
        to.modifiers@.len() == 0,
        !to.repeat,
    ensures
        fired(seq![to], bound, event).sent == modifier_events(
            bound,
            KeyState::Released,
            event.time,
            false,
        ) + seq![
            KeyEvent { key, state: KeyState::Pressed, time: event.time, lazy: to.lazy },
            KeyEvent { key, state: KeyState::Released, time: event.time, lazy: to.lazy },
        ] + modifier_events(bound, KeyState::Pressed, event.time, false),
        fired(seq![to], bound, event).instance.released(release_time).sent == Seq::<
            KeyEvent,
        >::empty(),
{
    let steps = seq![to];
    let time = event.time;
    assert(steps.last() == to);
    assert(steps_sent(steps, 0, time) =~= Seq::<KeyEvent>::empty());
    assert(steps_sent(steps, 1, time) =~= step_sent(to, true, time));
    assert(step_sent(to, true, time) =~= seq![
        KeyEvent { key, state: KeyState::Pressed, time, lazy: to.lazy },
        KeyEvent { key, state: KeyState::Released, time, lazy: to.lazy },
    ]);
    assert(steps_deferred(steps, 0, time) =~= Seq::<KeyEvent>::empty());
    assert(steps_deferred(steps, 1, time) =~= Seq::<KeyEvent>::empty());
    assert(fired(steps, bound, event).instance.released(release_time).sent =~= Seq::<
        KeyEvent,
    >::empty());
}

/// The release of an instance is dealt with once: a second release
/// sends nothing and changes nothing.
pub proof fn law_instance_released_once(instance: InstanceView, first: TimeVal, second: TimeVal)
    ensures
        instance.released(first).instance.released(second).sent == Seq::<KeyEvent>::empty(),
        instance.released(first).instance.released(second).instance == instance.released(
            first,
        ).instance,
{
}

impl ManipulatorView {
    /// No two instances at work are for the same key.
    pub open spec fn one_per_key(self) -> bool {
        forall|a: int, b: int|
            0 <= a < self.live.len() && 0 <= b < self.live.len() && (#[trigger] self.live[a]).source_key
                == (#[trigger] self.live[b]).source_key ==> a == b
    }
}

/// Showing an event to a rule leaves it with no two instances for the
/// same key, if it had none before.
pub proof fn law_applied_keeps_one_per_key(
    rule: ManipulatorView,
    pressed: Seq<ModifierKey>,
    event: KeyEvent,
)
    requires
        rule.one_per_key(),
    ensures
        rule.applied(pressed, event).manipulator.one_per_key(),
{
    let after = rule.applied(pressed, event).manipulator;
    lemma_first_live(rule.live, event.key, 0);
    if rule.handles(pressed, event) {
        if event.state is Pressed {
            assert forall|a: int, b: int|
                0 <= a < after.live.len() && 0 <= b < after.live.len() && (#[trigger] after.live[a]).source_key
                    == (#[trigger] after.live[b]).source_key implies a == b by {
                if a < rule.live.len() && b < rule.live.len() {
                    assert(rule.live[a].source_key == rule.live[b].source_key);
                }
            }
        } else {
            let gone = first_live(rule.live, event.key).unwrap();
            assert forall|a: int, b: int|
                0 <= a < after.live.len() && 0 <= b < after.live.len() && (#[trigger] after.live[a]).source_key
                    == (#[trigger] after.live[b]).source_key implies a == b by {
                let a0 = if a >= gone {
                    a + 1
                } else {
                    a
                };
                let b0 = if b >= gone {
                    b + 1
                } else {
                    b
                };
                assert(rule.live[a0].source_key == rule.live[b0].source_key);
            }
        }
    }
}

/// A rule deals with the release of a key once: after a release of a
/// key has been shown to it, a second release of that key is skipped,
/// sends nothing and changes nothing.
pub proof fn law_release_idempotent(
    rule: ManipulatorView,
    pressed: Seq<ModifierKey>,
    first: KeyEvent,
    second: KeyEvent,
)
    requires
        rule.one_per_key(),
        first.state is Released,
        second.state is Released,
        first.key == second.key,
    ensures
        ({
            let after = rule.applied(pressed, first).manipulator;
            &&& after.applied(pressed, second) == after.skipped()
            &&& after.applied(pressed, second).sent == Seq::<KeyEvent>::empty()
            &&& after.applied(pressed, second).manipulator == after
            &&& after.applied(pressed, second).result == ManipulationResult::Skipped
        }),
{
    let key = first.key;
    lemma_first_live(rule.live, key, 0);
    let after = rule.applied(pressed, first).manipulator;
    if rule.handles(pressed, first) {
        let at = first_live(rule.live, key).unwrap();
        assert(after.live == rule.live.remove(at));
        assert forall|i: int| 0 <= i < after.live.len() implies (#[trigger] after.live[i]).source_key
            != key by {
            if i < at {
                assert(after.live[i] == rule.live[i]);
            } else {
                assert(after.live[i] == rule.live[i + 1]);
            }
        }
    }
    lemma_first_live(after.live, key, 0);
}

impl EngineView {
    /// The instance at place `a` of rule `i`.
    pub open spec fn live_at(self, i: int, a: int) -> InstanceView {
        self.complex[i].live[a]
    }

    /// Whether rule `i` has an instance at place `a`.
    pub open spec fn has_live_at(self, i: int, a: int) -> bool {
        0 <= i < self.complex.len() && 0 <= a < self.complex[i].live.len()
    }

    /// The state of an engine that has been run from its start: no
    /// modifier key is down twice, no key has more than one instance at
    /// work, and every instance at work is for the key of its rule and
    /// has not seen its release.
    pub open spec fn well_formed(self) -> bool {
        &&& self.pressed.no_duplicates()
        &&& forall|i: int, a: int, j: int, b: int|
            self.has_live_at(i, a) && self.has_live_at(j, b) && (#[trigger] self.live_at(
                i,
                a,
            )).source_key == (#[trigger] self.live_at(j, b)).source_key ==> i == j && a == b
        &&& forall|i: int, a: int|
            self.has_live_at(i, a) ==> self.complex[i].from.key == Some(
                (#[trigger] self.live_at(i, a)).source_key,
            ) && !self.live_at(i, a).key_up_already_emitted
    }
}

/// The modifier keys that are down after an event hold no key twice,
/// if those before it did not.
pub proof fn lemma_after_event_no_duplicates(pressed: Seq<ModifierKey>, event: KeyEvent)
    requires
        pressed.no_duplicates(),
    ensures
        after_event(pressed, event).no_duplicates(),
{
    match ModifierKey::of_code(event.key.code) {
        Some(key) => {
            if event.state is Pressed || event.state is Autorepeat {
                if !pressed.contains(key) {
                    let grown = pressed.push(key);
                    assert forall|a: int, b: int|
                        0 <= a < grown.len() && 0 <= b < grown.len() && a != b implies grown[a]
                        != grown[b] by {
                        if a < pressed.len() {
                            assert(pressed.contains(pressed[a]));
                        }
                        if b < pressed.len() {
                            assert(pressed.contains(pressed[b]));
                        }
                    }
                }
            } else {
                lemma_without_no_duplicates(pressed, key);
            }
        },
        None => {},
    }
}

/// An engine with no modifier key down and no rule at work is well
/// formed.
pub proof fn law_fresh_engine_well_formed(engine: EngineView)
    requires
        engine.pressed.len() == 0,
        forall|i: int| 0 <= i < engine.complex.len() ==> (#[trigger] engine.complex[i]).live.len() == 0,
    ensures
        engine.well_formed(),
{
}

/// Every event leaves a well-formed engine well formed.
pub proof fn law_step_keeps_well_formed(engine: EngineView, event: KeyEvent)
    requires
        engine.well_formed(),
    ensures
        engine.step(event).engine.well_formed(),
{
    let next = engine.step(event).engine;
    match engine.route(event) {
        None => {
            lemma_after_event_no_duplicates(engine.pressed, engine.passed_on(event));
            assert forall|i: int, a: int| next.has_live_at(i, a) implies next.live_at(i, a)
                == engine.live_at(i, a) && engine.has_live_at(i, a) by {}
        },
        Some(at) => {
            lemma_after_event_no_duplicates(engine.pressed, event);
            lemma_taker(engine.complex, engine.pressed, event, 0);
            let rule = engine.complex[at];
            let applied = rule.applied(engine.pressed, event);
            assert(next.complex == engine.complex.update(at, applied.manipulator));
            assert(next.complex[at].from == rule.from);
            if event.state is Pressed {
                let count = rule.live.len() as int;
                assert(!captured(engine.complex, event.key));
                assert forall|j: int, b: int| engine.has_live_at(j, b) implies engine.live_at(
                    j,
                    b,
                ).source_key != event.key by {
                    lemma_first_live(engine.complex[j].live, event.key, 0);
                }
                assert forall|i: int, a: int| next.has_live_at(i, a) implies if i == at && a
                    == count {
                    next.live_at(i, a).source_key == event.key && !next.live_at(
                        i,
                        a,
                    ).key_up_already_emitted
                } else {
                    engine.has_live_at(i, a) && next.live_at(i, a) == engine.live_at(i, a)
                } by {}
                assert forall|i: int, a: int, j: int, b: int|
                    next.has_live_at(i, a) && next.has_live_at(j, b) && (#[trigger] next.live_at(
                        i,
                        a,
                    )).source_key == (#[trigger] next.live_at(j, b)).source_key implies i == j && a
                    == b by {
                    if !(i == at && a == count) && !(j == at && b == count) {
                        assert(engine.live_at(i, a).source_key == engine.live_at(j, b).source_key);
                    }
                }
            } else {
                assert(event.state is Released);
                lemma_first_live(rule.live, event.key, 0);
                let gone = first_live(rule.live, event.key).unwrap();
                assert(applied.manipulator.live == rule.live.remove(gone));
                assert forall|i: int, a: int| next.has_live_at(i, a) implies engine.has_live_at(
                    i,
                    if i == at && a >= gone {
                        a + 1
                    } else {
                        a
                    },
                ) && next.live_at(i, a) == engine.live_at(
                    i,
                    if i == at && a >= gone {
                        a + 1
                    } else {
                        a
                    },
                ) by {}
                assert forall|i: int, a: int, j: int, b: int|
                    next.has_live_at(i, a) && next.has_live_at(j, b) && (#[trigger] next.live_at(
                        i,
                        a,
                    )).source_key == (#[trigger] next.live_at(j, b)).source_key implies i == j && a
                    == b by {
                    let a0 = if i == at && a >= gone {
                        a + 1
                    } else {
                        a
                    };
                    let b0 = if j == at && b >= gone {
                        b + 1
                    } else {
                        b
                    };
                    assert(engine.live_at(i, a0).source_key == engine.live_at(j, b0).source_key);
                }
                assert forall|i: int, a: int| next.has_live_at(i, a) implies next.complex[i].from.key
                    == Some((#[trigger] next.live_at(i, a)).source_key) && !next.live_at(
                    i,
                    a,
                ).key_up_already_emitted by {
                    let a0 = if i == at && a >= gone {
                        a + 1
                    } else {
                        a
                    };
                    assert(engine.has_live_at(i, a0));
                    assert(engine.complex[i].from.key == Some(engine.live_at(i, a0).source_key));
                }
            }
        },
    }
}

/// Whatever comes from the reading side leaves a well-formed engine
/// well formed.
pub proof fn law_handled_keeps_well_formed(engine: EngineView, event: Event)
    requires
        engine.well_formed(),
    ensures
        engine.handled(event).engine.well_formed(),
{
    if let Event::InputEvent(input) = event {
        if input.is_key() {
            law_step_keeps_well_formed(engine, KeyEvent::of_input(input));
        }
    }
}

/// Once a rule has dealt with the release of a key, no rule is at work
/// for that key: a second release in a row goes to no rule, and is
/// passed on like the release of a key that no rule took.
pub proof fn law_second_release_reaches_no_rule(engine: EngineView, first: KeyEvent, second: KeyEvent)
    requires
        engine.well_formed(),
        first.state is Released,
        second.state is Released,
        first.key == second.key,
    ensures
        !captured(engine.step(first).engine.complex, first.key),
        engine.step(first).engine.route(second) is None,
        engine.step(first).engine.step(second).commands == Seq::<String>::empty(),
        engine.step(first).engine.step(second).engine.complex == engine.step(first).engine.complex,
{
    let key = first.key;
    let next = engine.step(first).engine;
    lemma_taker(engine.complex, engine.pressed, first, 0);
    assert forall|i: int| 0 <= i < next.complex.len() implies first_live(
        (#[trigger] next.complex[i]).live,
        key,
    ) is None by {
        lemma_first_live(next.complex[i].live, key, 0);
        lemma_first_live(engine.complex[i].live, key, 0);
        if first_live(next.complex[i].live, key) is Some {
            let a = first_live(next.complex[i].live, key).unwrap();
            match engine.route(first) {
                None => {
                    assert(engine.complex[i].handles(engine.pressed, first));
                },
                Some(at) => {
                    lemma_first_live(engine.complex[at].live, key, 0);
                    let gone = first_live(engine.complex[at].live, key).unwrap();
                    if i == at {
                        let a0 = if a >= gone {
                            a + 1
                        } else {
                            a
                        };
                        assert(next.complex[i].live == engine.complex[at].live.remove(gone));
                        assert(engine.has_live_at(at, a0) && engine.has_live_at(at, gone));
                        assert(engine.live_at(at, a0).source_key == engine.live_at(
                            at,
                            gone,
                        ).source_key);
                    } else {
                        assert(engine.has_live_at(i, a) && engine.has_live_at(at, gone));
                        assert(engine.live_at(i, a).source_key == engine.live_at(
                            at,
                            gone,
                        ).source_key);
                    }
                },
            }
        }
    }
    lemma_taker(next.complex, next.pressed, second, 0);
}

/// Every event that the first `n` steps send carries the given time.
proof fn lemma_steps_sent_time(to: Seq<ToEvent>, n: int, time: TimeVal)
    requires
        n <= to.len(),
    ensures
        forall|i: int| 0 <= i < steps_sent(to, n, time).len() ==> (#[trigger] steps_sent(
            to,
            n,
            time,
        )[i]).time == time,
    decreases n,
{
    if n > 0 {
        lemma_steps_sent_time(to, n - 1, time);
    }
}

/// What one event brings forth is one batch: every event that is sent
/// carries the time of the event that brought it forth.
pub proof fn law_one_time_per_batch(engine: EngineView, event: KeyEvent, i: int)
    requires
        0 <= i < engine.step(event).sent.len(),
    ensures
        engine.step(event).sent[i].time == event.time,
{
    if event.state is Pressed || event.state is Released {
        let flushed = restamped(engine.withheld, event.time);
        match engine.route(event) {
            None => {},
            Some(at) => {
                lemma_taker(engine.complex, engine.pressed, event, 0);
                let rule = engine.complex[at];
                let applied = rule.applied(engine.pressed, event);
                if event.state is Pressed {
                    lemma_steps_sent_time(rule.to, rule.to.len() as int, event.time);
                }
                lemma_parted(applied.sent);
                if i >= flushed.len() {
                    let sent = eager_among(applied.sent)[i - flushed.len()];
                    let j = choose|j: int| 0 <= j < applied.sent.len() && applied.sent[j] == sent;
                    assert(applied.sent[j].time == event.time);
                }
            },
        }
    }
}

/// What an event adds to the number of times that `key` is down: one
/// for a press of the key, one less for a release of it.
pub open spec fn weight(event: KeyEvent, key: KeyCode) -> int {
    if event.key != key {
        0
    } else if event.state is Pressed {
        1
    } else if event.state is Released {
        -1
    } else {
        0
    }
}

/// The presses of `key` less the releases of `key` in a run of events.
pub open spec fn balance(events: Seq<KeyEvent>, key: KeyCode) -> int
    decreases events.len(),
{
    if events.len() == 0 {
        0
    } else {
        balance(events.drop_last(), key) + weight(events.last(), key)
    }
}

proof fn lemma_balance_add(first: Seq<KeyEvent>, second: Seq<KeyEvent>, key: KeyCode)
    ensures
        balance(first + second, key) == balance(first, key) + balance(second, key),
    decreases second.len(),
{
    if second.len() == 0 {
        assert(first + second =~= first);
    } else {
        lemma_balance_add(first, second.drop_last(), key);
        assert((first + second).drop_last() =~= first + second.drop_last());
    }
}

proof fn lemma_balance_restamped(events: Seq<KeyEvent>, time: TimeVal, key: KeyCode)
    ensures
        balance(restamped(events, time), key) == balance(events, key),
    decreases events.len(),
{
    if events.len() > 0 {
        lemma_balance_restamped(events.drop_last(), time, key);
        assert(restamped(events, time).drop_last() =~= restamped(events.drop_last(), time));
    }
}

proof fn lemma_balance_modifier_events(
    keys: Seq<ModifierKey>,
    pressed_at: TimeVal,
    released_at: TimeVal,
    pressed_lazy: bool,
    released_lazy: bool,
    key: KeyCode,
)
    ensures
        balance(modifier_events(keys, KeyState::Pressed, pressed_at, pressed_lazy), key) + balance(
            modifier_events(keys, KeyState::Released, released_at, released_lazy),
            key,
        ) == 0,
    decreases keys.len(),
{
    if keys.len() > 0 {
        let before = keys.drop_last();
        lemma_balance_modifier_events(
            before,
            pressed_at,
            released_at,
            pressed_lazy,
            released_lazy,
            key,
        );
        assert(modifier_events(keys, KeyState::Pressed, pressed_at, pressed_lazy).drop_last()
            =~= modifier_events(before, KeyState::Pressed, pressed_at, pressed_lazy));
        assert(modifier_events(keys, KeyState::Released, released_at, released_lazy).drop_last()
            =~= modifier_events(before, KeyState::Released, released_at, released_lazy));
    }
}

proof fn lemma_balance_key_events(to_key: Option<KeyCode>, time: TimeVal, lazy: bool, key: KeyCode)
    ensures
        balance(key_events(to_key, KeyState::Pressed, time, lazy), key) + balance(
            key_events(to_key, KeyState::Released, time, lazy),
            key,
        ) == 0,
{
    if to_key is Some {
        let down = key_events(to_key, KeyState::Pressed, time, lazy);
        let up = key_events(to_key, KeyState::Released, time, lazy);
        assert(down.drop_last() =~= Seq::<KeyEvent>::empty());
        assert(up.drop_last() =~= Seq::<KeyEvent>::empty());
        assert(balance(down.drop_last(), key) == 0);
        assert(balance(up.drop_last(), key) == 0);
    }
}

proof fn lemma_balance_step(to: ToEvent, last: bool, time: TimeVal, key: KeyCode)
    ensures
        balance(step_sent(to, last, time), key) + balance(step_deferred(to, last, time), key) == 0,
{
    let mods_down = modifier_events(to.modifiers@, KeyState::Pressed, time, to.lazy);
    let mods_up = modifier_events(to.modifiers@, KeyState::Released, time, to.lazy);
    let key_down = key_events(to.key, KeyState::Pressed, time, to.lazy);
    let key_up = key_events(to.key, KeyState::Released, time, to.lazy);
    let none = Seq::<KeyEvent>::empty();
    let key_now = if key_release_waits(to, last) {
        none
    } else {
        key_up
    };
    let mods_now = if modifier_release_waits(to, last) {
        none
    } else {
        mods_up
    };
    let key_later = if key_release_waits(to, last) {
        key_up
    } else {
        none
    };
    let mods_later = if modifier_release_waits(to, last) {
        mods_up
    } else {
        none
    };
    lemma_balance_modifier_events(to.modifiers@, time, time, to.lazy, to.lazy, key);
    lemma_balance_key_events(to.key, time, to.lazy, key);
    lemma_balance_add(mods_down, key_down, key);
    lemma_balance_add(mods_down + key_down, key_now, key);
    lemma_balance_add(mods_down + key_down + key_now, mods_now, key);
    lemma_balance_add(key_later, mods_later, key);
    assert(balance(none, key) == 0);
}

proof fn lemma_balance_steps(to: Seq<ToEvent>, n: int, time: TimeVal, key: KeyCode)
    requires
        n <= to.len(),
    ensures
        balance(steps_sent(to, n, time), key) + balance(steps_deferred(to, n, time), key) == 0,
    decreases n,
{
    if n > 0 {
        lemma_balance_steps(to, n - 1, time, key);
        lemma_balance_step(to[n - 1], n == to.len(), time, key);
        lemma_balance_add(
            steps_sent(to, n - 1, time),
            step_sent(to[n - 1], n == to.len(), time),
            key,
        );
        lemma_balance_add(
            steps_deferred(to, n - 1, time),
            step_deferred(to[n - 1], n == to.len(), time),
            key,
        );
    } else {
        assert(balance(Seq::<KeyEvent>::empty(), key) == 0);
    }
}

/// A rule leaves no key stuck. Take what a rule sends when it fires
/// and what it sends when its source key comes up: in the two together
/// every key is pressed as often as it is released. So a key that the
/// rule pressed has been released again, and a modifier that it
/// cancelled is down again, as it is on the keyboard.
pub proof fn law_press_and_release_pair(
    to: Seq<ToEvent>,
    bound: Seq<ModifierKey>,
    press: KeyEvent,
    release_time: TimeVal,
    key: KeyCode,
)
    ensures
        balance(
            fired(to, bound, press).sent + fired(to, bound, press).instance.released(
                release_time,
            ).sent,
            key,
        ) == 0,
{
    let firing = fired(to, bound, press);
    let later = firing.instance.released(release_time).sent;
    let none = Seq::<KeyEvent>::empty();
    lemma_balance_add(firing.sent, later, key);
    assert(balance(none, key) == 0);
    if to.len() > 0 {
        let time = press.time;
        let n = to.len() as int;
        let cancel = modifier_events(bound, KeyState::Released, time, false);
        let steps = steps_sent(to, n, time);
        let deferred = steps_deferred(to, n, time);
        lemma_balance_steps(to, n, time, key);
        lemma_balance_restamped(deferred, release_time, key);
        lemma_balance_add(cancel, steps, key);
        if restores_at_once(to) {
            let restore = modifier_events(bound, KeyState::Pressed, time, false);
            lemma_balance_modifier_events(bound, time, time, false, false, key);
            lemma_balance_add(cancel + steps, restore, key);
            let nothing = modifier_events(none_keys(), KeyState::Pressed, release_time, false);
            assert(nothing =~= none);
            lemma_balance_add(restamped(deferred, release_time), nothing, key);
        } else {
            let restore = modifier_events(bound, KeyState::Pressed, release_time, false);
            lemma_balance_modifier_events(bound, release_time, time, false, false, key);
            lemma_balance_add(cancel + steps, none, key);
            assert(cancel + steps + none =~= cancel + steps);
            lemma_balance_add(restamped(deferred, release_time), restore, key);
        }
    } else {
        assert(firing.sent =~= none);
        assert(restamped(none, release_time) =~= none);
        assert(modifier_events(none_keys(), KeyState::Pressed, release_time, false) =~= none);
        assert(later =~= none);
    }
}

/// No modifier keys.
spec fn none_keys() -> Seq<ModifierKey> {
    Seq::empty()
}

} // verus!
