//! A rule that has fired for a key that is still down.

use crate::event::{KeyEvent, TimeVal};
use crate::key_state::KeyState;
use crate::keys::KeyCode;
use crate::state::modifier::ModifierKey;
use vstd::prelude::*;

verus! {

/// One event for each of the given modifier keys, in their order.
pub open spec fn modifier_events(
    keys: Seq<ModifierKey>,
    state: KeyState,
    time: TimeVal,
    lazy: bool,
) -> Seq<KeyEvent> {
    Seq::new(
        keys.len(),
        |i: int| KeyEvent { key: KeyCode { code: keys[i].code() }, state, time, lazy },
    )
}

/// The same events, with another time on each.
pub open spec fn restamped(events: Seq<KeyEvent>, time: TimeVal) -> Seq<KeyEvent> {
    Seq::new(events.len(), |i: int| KeyEvent { time, ..events[i] })
}

/// Appends one event for each of the given modifier keys.
pub fn push_modifier_events(
    output_queue: &mut Vec<KeyEvent>,
    keys: &Vec<ModifierKey>,
    state: KeyState,
    time: &TimeVal,
    lazy: bool,
)
    ensures
        final(output_queue)@ == old(output_queue)@ + modifier_events(keys@, state, *time, lazy),
{
    let ghost before = output_queue@;
    let mut i: usize = 0;
    assert(keys@.take(0) =~= Seq::<ModifierKey>::empty());
    assert(output_queue@ =~= before + modifier_events(keys@.take(0), state, *time, lazy));
    while i < keys.len()
        invariant
            i <= keys@.len(),
            output_queue@ == before + modifier_events(keys@.take(i as int), state, *time, lazy),
        decreases keys@.len() - i,
    {
        if let Some(key) = keys[i].as_key() {
            output_queue.push(KeyEvent::new(time, &key, state, lazy));
        }
        assert(output_queue@ =~= before + modifier_events(
            keys@.take(i + 1),
            state,
            *time,
            lazy,
        ));
        i += 1;
    }
    assert(keys@.take(i as int) =~= keys@);
}

/// A rule at work: it fired when `source_key` went down, and what it
/// still owes is sent when that key comes up.
#[derive(Debug)]
pub struct ManipulationInstance {
    /// The key whose press fired the rule.
    pub source_key: KeyCode,
    /// When that press came.
    pub press_time: TimeVal,
    /// Set once the release has been dealt with.
    pub key_up_already_emitted: bool,
    /// The mandatory modifiers that were released for the rule and are
    /// to be pressed again, in the order in which they were released.
    pub cancelled_mandatory_modifiers: Vec<ModifierKey>,
    /// The events that wait for the release of `source_key`.
    pub deferred_release_events: Vec<KeyEvent>,
}

/// A `ManipulationInstance` as plain values.
#[verifier::ext_equal]
pub struct InstanceView {
    pub source_key: KeyCode,
    pub press_time: TimeVal,
    pub key_up_already_emitted: bool,
    pub cancelled_mandatory_modifiers: Seq<ModifierKey>,
    pub deferred_release_events: Seq<KeyEvent>,
}

/// What the release of the source key sends, and what it leaves.
#[verifier::ext_equal]
pub struct Resolution {
    pub instance: InstanceView,
    pub sent: Seq<KeyEvent>,
}

impl InstanceView {
    /// The release of the source key at `time`. The first time, the
    /// deferred events go out with that time on them, then a press for
    /// each modifier that is still cancelled; both lists are emptied
    /// and the release is marked as dealt with. After that a release
    /// sends nothing and changes nothing.
    pub open spec fn released(self, time: TimeVal) -> Resolution {
        if self.key_up_already_emitted {
            Resolution { instance: self, sent: Seq::empty() }
        } else {
            Resolution {
                instance: InstanceView {
                    key_up_already_emitted: true,
                    cancelled_mandatory_modifiers: Seq::empty(),
                    deferred_release_events: Seq::empty(),
                    ..self
                },
                sent: restamped(self.deferred_release_events, time) + modifier_events(
                    self.cancelled_mandatory_modifiers,
                    KeyState::Pressed,
                    time,
                    false,
                ),
            }
        }
    }
}

impl View for ManipulationInstance {
    type V = InstanceView;

    open spec fn view(&self) -> InstanceView {
        InstanceView {
            source_key: self.source_key,
            press_time: self.press_time,
            key_up_already_emitted: self.key_up_already_emitted,
            cancelled_mandatory_modifiers: self.cancelled_mandatory_modifiers@,
            deferred_release_events: self.deferred_release_events@,
        }
    }
}

impl ManipulationInstance {
    /// Deals with the release of the source key: appends what the
    /// release sends to `output_queue`.
    pub fn release(&mut self, time: &TimeVal, output_queue: &mut Vec<KeyEvent>)
        ensures
            final(self)@ == old(self)@.released(*time).instance,
            final(output_queue)@ == old(output_queue)@ + old(self)@.released(*time).sent,
    {
        if self.key_up_already_emitted {
            assert(output_queue@ =~= old(output_queue)@ + Seq::<KeyEvent>::empty());
            return ;
        }
        let ghost before = output_queue@;
        let mut i: usize = 0;
        assert(output_queue@ =~= before + restamped(self.deferred_release_events@.take(0), *time));
        while i < self.deferred_release_events.len()
            invariant
                i <= self.deferred_release_events@.len(),
                output_queue@ == before + restamped(
                    self.deferred_release_events@.take(i as int),
                    *time,
                ),
            decreases self.deferred_release_events@.len() - i,
        {
            let event = self.deferred_release_events[i];
            output_queue.push(KeyEvent::new(time, &event.key, event.state, event.lazy));
            assert(output_queue@ =~= before + restamped(
                self.deferred_release_events@.take(i + 1),
                *time,
            ));
            i += 1;
        }
        assert(self.deferred_release_events@.take(i as int) =~= self.deferred_release_events@);
        push_modifier_events(
            output_queue,
            &self.cancelled_mandatory_modifiers,
            KeyState::Pressed,
            time,
            false,
        );
        self.deferred_release_events.clear();
        self.cancelled_mandatory_modifiers.clear();
        self.key_up_already_emitted = true;
        assert(output_queue@ =~= old(output_queue)@ + old(self)@.released(*time).sent);
        assert(self@ =~= old(self)@.released(*time).instance);
    }
}

} // verus!
