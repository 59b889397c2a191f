use karabinux::event::{Event, InputEvent, KeyEvent, TimeVal, EV_KEY, EV_MSC, EV_SYN};
use karabinux::karabiner::{
    KBComplexModifications, KBComplexRule, KBCondition, KBConditionKind, KBFromDefinition,
    KBFromModifiers, KBManipulator, KBManipulatorKind, KBProfile, KBSimpleModification,
    KBSimpleRule, KBToDefinition,
};
use karabinux::key_state::KeyState;
use karabinux::keys::{
    KeyCode, KEY_A, KEY_B, KEY_C, KEY_CAPSLOCK, KEY_D, KEY_E, KEY_F, KEY_G, KEY_LEFTALT,
    KEY_LEFTCTRL, KEY_LEFTSHIFT, KEY_RIGHTSHIFT, KEY_X, KEY_Y,
};
use karabinux::state::instance::push_modifier_events;
use karabinux::state::{
    ComplexManipulator, ManipulationInstance, ManipulationResult, ModifierKey, ModifierState,
    StateManager,
};
use karabinux::key_state::KeyState::{Autorepeat, Pressed, Released};

fn names(list: &[&str]) -> Option<Vec<String>> {
    Some(list.iter().map(|name| name.to_string()).collect())
}

fn simple(from: &str, to: &str) -> KBSimpleModification {
    KBSimpleModification {
        from: KBSimpleRule { key_code: from.to_string() },
        to: KBSimpleRule { key_code: to.to_string() },
    }
}

fn step(key_code: Option<&str>, modifiers: &[&str], repeat: Option<bool>) -> KBToDefinition {
    KBToDefinition {
        key_code: key_code.map(|name| name.to_string()),
        modifiers: if modifiers.is_empty() { None } else { names(modifiers) },
        shell_command: None,
        repeat,
        lazy: None,
    }
}

fn rule(
    key_code: &str,
    mandatory: &[&str],
    optional: &[&str],
    to: Option<Vec<KBToDefinition>>,
) -> KBManipulator {
    let modifiers = if mandatory.is_empty() && optional.is_empty() {
        None
    } else {
        Some(KBFromModifiers { mandatory: names(mandatory), optional: names(optional) })
    };
    KBManipulator {
        description: None,
        kind: KBManipulatorKind::Basic,
        from: KBFromDefinition {
            key_code: Some(key_code.to_string()),
            modifiers,
            simultaneous: None,
            simultaneous_options: None,
        },
        to,
        conditions: None,
    }
}

fn engine(simple_modifications: Vec<KBSimpleModification>, rules: Vec<KBManipulator>) -> StateManager {
    let profile = KBProfile {
        name: "test".to_string(),
        selected: true,
        simple_modifications,
        complex_modifications: KBComplexModifications {
            rules: vec![KBComplexRule { manipulators: rules }],
        },
    };
    StateManager::from_profile(&profile).expect("failed to construct state")
}

fn send(state: &mut StateManager, key: u16, value: KeyState) -> Vec<(u16, KeyState)> {
    let event = InputEvent::new(&TimeVal::new(0, 0), EV_KEY, key, value.into());
    let mapped = state.get_mapped_events(event);
    assert!(mapped.shell_commands.is_empty());
    mapped
        .events
        .iter()
        .map(|ev| {
            assert_eq!(ev.event_type, EV_KEY);
            (ev.event_code, KeyState::from(ev.value))
        })
        .collect()
}

fn run(state: &mut StateManager, input: &[(u16, KeyState)]) -> Vec<(u16, KeyState)> {
    let mut output = vec![];
    for (key, value) in input {
        output.extend(send(state, *key, *value));
    }
    output
}

#[test]
fn mandatory_any_releases_the_modifier_sends_the_key_and_presses_the_modifier_again() {
    let mut state = engine(
        vec![],
        vec![rule("c", &["any"], &[], Some(vec![step(Some("d"), &[], Some(false))]))],
    );
    assert_eq!(send(&mut state, KEY_LEFTALT, Pressed), vec![(KEY_LEFTALT, Pressed)]);
    assert_eq!(
        send(&mut state, KEY_C, Pressed),
        vec![(KEY_LEFTALT, Released), (KEY_D, Pressed), (KEY_D, Released), (KEY_LEFTALT, Pressed)]
    );
    assert_eq!(send(&mut state, KEY_C, Released), vec![]);
    assert_eq!(send(&mut state, KEY_LEFTALT, Released), vec![(KEY_LEFTALT, Released)]);
    assert!(state.pressed_modifiers().is_empty());
}

#[test]
fn mandatory_any_cancels_and_restores_in_press_order() {
    let mut state = engine(
        vec![],
        vec![rule("c", &["any"], &[], Some(vec![step(Some("d"), &[], Some(false))]))],
    );
    run(&mut state, &[(KEY_LEFTCTRL, Pressed), (KEY_LEFTSHIFT, Pressed)]);
    assert_eq!(
        send(&mut state, KEY_C, Pressed),
        vec![
            (KEY_LEFTCTRL, Released),
            (KEY_LEFTSHIFT, Released),
            (KEY_D, Pressed),
            (KEY_D, Released),
            (KEY_LEFTCTRL, Pressed),
            (KEY_LEFTSHIFT, Pressed),
        ]
    );
    assert_eq!(
        state.pressed_modifiers(),
        vec![ModifierKey::LeftControl, ModifierKey::LeftShift]
    );

    // Shift first this time.
    let mut state = engine(
        vec![],
        vec![rule("c", &["any"], &[], Some(vec![step(Some("d"), &[], Some(false))]))],
    );
    run(&mut state, &[(KEY_LEFTSHIFT, Pressed), (KEY_LEFTCTRL, Pressed)]);
    assert_eq!(
        send(&mut state, KEY_C, Pressed),
        vec![
            (KEY_LEFTSHIFT, Released),
            (KEY_LEFTCTRL, Released),
            (KEY_D, Pressed),
            (KEY_D, Released),
            (KEY_LEFTSHIFT, Pressed),
            (KEY_LEFTCTRL, Pressed),
        ]
    );
}

#[test]
fn a_step_that_repeats_keeps_its_key_down_until_the_source_key_comes_up() {
    let mut state = engine(
        vec![],
        vec![rule("c", &["any"], &[], Some(vec![step(Some("d"), &[], None)]))],
    );
    send(&mut state, KEY_LEFTALT, Pressed);
    assert_eq!(
        send(&mut state, KEY_C, Pressed),
        vec![(KEY_LEFTALT, Released), (KEY_D, Pressed), (KEY_LEFTALT, Pressed)]
    );
    assert_eq!(send(&mut state, KEY_C, Released), vec![(KEY_D, Released)]);
}

#[test]
fn a_last_step_on_a_modifier_key_keeps_everything_until_the_source_key_comes_up() {
    let mut state = engine(
        vec![],
        vec![rule(
            "x",
            &["left_alt"],
            &[],
            Some(vec![step(Some("left_shift"), &["left_control"], None)]),
        )],
    );
    send(&mut state, KEY_LEFTALT, Pressed);
    assert_eq!(
        send(&mut state, KEY_X, Pressed),
        vec![(KEY_LEFTALT, Released), (KEY_LEFTCTRL, Pressed), (KEY_LEFTSHIFT, Pressed)]
    );
    assert_eq!(
        send(&mut state, KEY_X, Released),
        vec![(KEY_LEFTSHIFT, Released), (KEY_LEFTCTRL, Released), (KEY_LEFTALT, Pressed)]
    );
}

#[test]
fn a_last_step_on_a_modifier_key_that_does_not_repeat_releases_its_key_at_once() {
    let mut state = engine(
        vec![],
        vec![rule(
            "x",
            &[],
            &[],
            Some(vec![step(Some("left_shift"), &["left_control"], Some(false))]),
        )],
    );
    assert_eq!(
        send(&mut state, KEY_X, Pressed),
        vec![(KEY_LEFTCTRL, Pressed), (KEY_LEFTSHIFT, Pressed), (KEY_LEFTSHIFT, Released)]
    );
    assert_eq!(send(&mut state, KEY_X, Released), vec![(KEY_LEFTCTRL, Released)]);
}

#[test]
fn steps_fire_in_order_and_only_the_last_is_kept_down() {
    let mut state = engine(
        vec![],
        vec![rule(
            "x",
            &[],
            &[],
            Some(vec![
                step(Some("a"), &["left_shift"], None),
                step(Some("b"), &[], None),
                step(Some("c"), &["left_control"], None),
            ]),
        )],
    );
    assert_eq!(
        send(&mut state, KEY_X, Pressed),
        vec![
            (KEY_LEFTSHIFT, Pressed),
            (KEY_A, Pressed),
            (KEY_A, Released),
            (KEY_LEFTSHIFT, Released),
            (KEY_B, Pressed),
            (KEY_B, Released),
            (KEY_LEFTCTRL, Pressed),
            (KEY_C, Pressed),
            (KEY_LEFTCTRL, Released),
        ]
    );
    assert_eq!(send(&mut state, KEY_X, Released), vec![(KEY_C, Released)]);
}

#[test]
fn a_rule_without_steps_swallows_the_key() {
    for to in [None, Some(vec![])] {
        let mut state = engine(vec![simple("x", "y")], vec![rule("x", &["any"], &[], to)]);
        send(&mut state, KEY_LEFTALT, Pressed);
        assert_eq!(send(&mut state, KEY_X, Pressed), vec![]);
        assert_eq!(send(&mut state, KEY_X, Released), vec![]);
        assert_eq!(send(&mut state, KEY_LEFTALT, Released), vec![(KEY_LEFTALT, Released)]);
    }
}

#[test]
fn optional_any_fires_alike_with_and_without_modifiers() {
    let rules = || vec![rule("e", &[], &["any"], Some(vec![step(Some("f"), &[], None)]))];
    let mut bare = engine(vec![], rules());
    let alone = run(&mut bare, &[(KEY_E, Pressed), (KEY_E, Released)]);
    assert_eq!(alone, vec![(KEY_F, Pressed), (KEY_F, Released)]);

    let mut held = engine(vec![], rules());
    run(&mut held, &[(KEY_LEFTCTRL, Pressed), (KEY_RIGHTSHIFT, Pressed), (KEY_CAPSLOCK, Pressed)]);
    let before = held.pressed_modifiers();
    assert_eq!(run(&mut held, &[(KEY_E, Pressed), (KEY_E, Released)]), alone);
    assert_eq!(held.pressed_modifiers(), before);
}

#[test]
fn from_modifiers_scenario() {
    let mut state = engine(
        vec![],
        vec![rule("e", &[], &["any"], Some(vec![step(Some("f"), &[], None)]))],
    );
    assert_eq!(
        run(
            &mut state,
            &[(KEY_LEFTCTRL, Pressed), (KEY_E, Pressed), (KEY_E, Released), (KEY_LEFTCTRL, Released)]
        ),
        vec![(KEY_LEFTCTRL, Pressed), (KEY_F, Pressed), (KEY_F, Released), (KEY_LEFTCTRL, Released)]
    );
}

#[test]
fn bare_rule_leaves_key_and_modifier_alone_while_a_modifier_is_down() {
    let mut state = engine(
        vec![],
        vec![rule("a", &[], &[], Some(vec![step(Some("b"), &[], None)]))],
    );
    assert_eq!(
        run(&mut state, &[(KEY_A, Pressed), (KEY_A, Released)]),
        vec![(KEY_B, Pressed), (KEY_B, Released)]
    );
    send(&mut state, KEY_LEFTSHIFT, Pressed);
    assert_eq!(
        run(&mut state, &[(KEY_A, Pressed), (KEY_A, Released)]),
        vec![(KEY_A, Pressed), (KEY_A, Released)]
    );
    assert_eq!(state.pressed_modifiers(), vec![ModifierKey::LeftShift]);
}

#[test]
fn second_release_in_a_row_reaches_no_rule() {
    let mut state = engine(
        vec![],
        vec![rule("c", &["any"], &[], Some(vec![step(Some("d"), &[], None)]))],
    );
    send(&mut state, KEY_LEFTALT, Pressed);
    send(&mut state, KEY_C, Pressed);
    assert_eq!(send(&mut state, KEY_C, Released), vec![(KEY_D, Released)]);
    // The rule is done with the key: the second release is passed on as it came.
    assert_eq!(send(&mut state, KEY_C, Released), vec![(KEY_C, Released)]);
}

#[test]
fn a_rule_releases_once() {
    let kb = rule("c", &["any"], &[], Some(vec![step(Some("d"), &[], None)]));
    let mut manipulator = ComplexManipulator::new(&kb).unwrap();
    let mut tracker = ModifierState::new();
    let time = TimeVal::new(5, 6);
    tracker.update(&KeyEvent::new(&time, &KeyCode::new(KEY_LEFTALT), Pressed, false));

    let mut queue = vec![];
    let mut commands = vec![];
    let press = KeyEvent::new(&time, &KeyCode::new(KEY_C), Pressed, false);
    assert!(manipulator.matches(&tracker, &press));
    assert_eq!(
        manipulator.apply(&tracker, &press, &mut queue, &mut commands),
        ManipulationResult::Applied
    );
    assert_eq!(queue.len(), 3);
    assert_eq!(manipulator.live_instances(), 1);
    assert_eq!(manipulator.find_instance(KeyCode::new(KEY_C)), Some(0));

    let release = KeyEvent::new(&time, &KeyCode::new(KEY_C), Released, false);
    let mut queue = vec![];
    assert_eq!(
        manipulator.apply(&tracker, &release, &mut queue, &mut commands),
        ManipulationResult::Applied
    );
    assert_eq!(queue, vec![KeyEvent::new(&time, &KeyCode::new(KEY_D), Released, false)]);
    assert_eq!(manipulator.live_instances(), 0);

    let mut queue = vec![];
    assert_eq!(
        manipulator.apply(&tracker, &release, &mut queue, &mut commands),
        ManipulationResult::Skipped
    );
    assert!(queue.is_empty());
    assert!(commands.is_empty());
    assert_eq!(manipulator.live_instances(), 0);
    assert_eq!(manipulator.find_instance(KeyCode::new(KEY_C)), None);
}

#[test]
fn a_rule_skips_what_is_not_for_it() {
    let kb = rule("c", &["shift"], &[], Some(vec![step(Some("d"), &[], None)]));
    let mut manipulator = ComplexManipulator::new(&kb).unwrap();
    let mut tracker = ModifierState::new();
    let time = TimeVal::new(0, 0);
    let mut queue = vec![];
    let mut commands = vec![];
    let key = |code: u16, state: KeyState| KeyEvent::new(&time, &KeyCode::new(code), state, false);

    // The modifier is not down.
    assert!(!manipulator.matches(&tracker, &key(KEY_C, Pressed)));
    assert_eq!(
        manipulator.apply(&tracker, &key(KEY_C, Pressed), &mut queue, &mut commands),
        ManipulationResult::Skipped
    );
    tracker.update(&key(KEY_LEFTSHIFT, Pressed));
    // Another key.
    assert!(!manipulator.matches(&tracker, &key(KEY_D, Pressed)));
    assert_eq!(
        manipulator.apply(&tracker, &key(KEY_D, Pressed), &mut queue, &mut commands),
        ManipulationResult::Skipped
    );
    // An autorepeat, a release without a press, an unknown value.
    for state in [Autorepeat, Released, KeyState::Unknown(4)] {
        assert_eq!(
            manipulator.apply(&tracker, &key(KEY_C, state), &mut queue, &mut commands),
            ManipulationResult::Skipped
        );
    }
    assert!(queue.is_empty());
    assert_eq!(manipulator.live_instances(), 0);

    // A press, and then a second press of the same key.
    assert_eq!(
        manipulator.apply(&tracker, &key(KEY_C, Pressed), &mut queue, &mut commands),
        ManipulationResult::Applied
    );
    let sent = queue.len();
    assert_eq!(
        manipulator.apply(&tracker, &key(KEY_C, Pressed), &mut queue, &mut commands),
        ManipulationResult::Skipped
    );
    assert_eq!(queue.len(), sent);
    assert_eq!(manipulator.live_instances(), 1);
}

#[test]
fn a_rule_marks_what_a_lazy_step_sends_and_hands_the_command_over() {
    let kb = rule(
        "c",
        &["any"],
        &[],
        Some(vec![
            KBToDefinition {
                key_code: Some("d".to_string()),
                modifiers: names(&["left_shift"]),
                shell_command: Some("first".to_string()),
                repeat: None,
                lazy: Some(true),
            },
            KBToDefinition {
                key_code: None,
                modifiers: None,
                shell_command: Some("second".to_string()),
                repeat: None,
                lazy: None,
            },
        ]),
    );
    let mut manipulator = ComplexManipulator::new(&kb).unwrap();
    let mut tracker = ModifierState::new();
    let time = TimeVal::new(9, 1);
    tracker.update(&KeyEvent::new(&time, &KeyCode::new(KEY_LEFTALT), Pressed, false));
    let mut queue = vec![KeyEvent::new(&time, &KeyCode::new(KEY_G), Pressed, false)];
    let mut commands = vec!["zeroth".to_string()];
    let press = KeyEvent::new(&time, &KeyCode::new(KEY_C), Pressed, false);
    manipulator.apply(&tracker, &press, &mut queue, &mut commands);
    let key = |code: u16, state: KeyState, lazy: bool| {
        KeyEvent::new(&time, &KeyCode::new(code), state, lazy)
    };
    assert_eq!(
        queue,
        vec![
            key(KEY_G, Pressed, false),
            key(KEY_LEFTALT, Released, false),
            key(KEY_LEFTSHIFT, Pressed, true),
            key(KEY_D, Pressed, true),
            key(KEY_D, Released, true),
            key(KEY_LEFTSHIFT, Released, true),
            key(KEY_LEFTALT, Pressed, false),
        ]
    );
    assert_eq!(commands, vec!["zeroth".to_string(), "first".to_string(), "second".to_string()]);
}

#[test]
fn commands_come_back_with_the_press_and_not_with_the_release() {
    let mut kb = rule("c", &[], &[], Some(vec![step(Some("d"), &[], None)]));
    kb.to.as_mut().unwrap()[0].shell_command = Some("notify".to_string());
    let mut state = engine(vec![], vec![kb]);
    let time = TimeVal::new(0, 0);
    let mapped = state.get_mapped_events(InputEvent::new(&time, EV_KEY, KEY_C, 1));
    assert_eq!(mapped.shell_commands, vec!["notify".to_string()]);
    assert_eq!(mapped.events.len(), 1);
    let mapped = state.get_mapped_events(InputEvent::new(&time, EV_KEY, KEY_C, 0));
    assert!(mapped.shell_commands.is_empty());
    assert_eq!(mapped.events.len(), 1);
}

#[test]
fn simple_substitution_is_one_for_one() {
    let mut state = engine(vec![simple("caps_lock", "left_control")], vec![]);
    assert_eq!(send(&mut state, KEY_CAPSLOCK, Pressed), vec![(KEY_LEFTCTRL, Pressed)]);
    // The modifier keys that are down are told by the event as it was passed on.
    assert_eq!(state.pressed_modifiers(), vec![ModifierKey::LeftControl]);
    assert_eq!(send(&mut state, KEY_CAPSLOCK, Released), vec![(KEY_LEFTCTRL, Released)]);
    assert!(state.pressed_modifiers().is_empty());
    assert_eq!(send(&mut state, KEY_A, Pressed), vec![(KEY_A, Pressed)]);
}

#[test]
fn simple_substitution_takes_the_first_entry_and_does_not_chain() {
    let mut state = engine(vec![simple("a", "b"), simple("b", "c"), simple("a", "d")], vec![]);
    assert_eq!(send(&mut state, KEY_A, Pressed), vec![(KEY_B, Pressed)]);
    assert_eq!(send(&mut state, KEY_B, Pressed), vec![(KEY_C, Pressed)]);
}

#[test]
fn a_key_substituted_by_itself_is_passed_on_as_it_came() {
    let mut state = engine(vec![simple("a", "a")], vec![]);
    assert_eq!(
        run(&mut state, &[(KEY_A, Pressed), (KEY_A, Released)]),
        vec![(KEY_A, Pressed), (KEY_A, Released)]
    );
    assert!(state.pressed_modifiers().is_empty());
}

#[test]
fn config_literal_maps_caps_lock_to_left_control() {
    let literal = r#"{"simple_modifications":[{"from":{"key_code":"caps_lock"},"to":{"key_code":"left_control"}}]}"#;
    let value: serde_json::Value = serde_json::from_str(literal).expect("failed to parse");
    let simple_modifications = value["simple_modifications"]
        .as_array()
        .unwrap()
        .iter()
        .map(|entry| {
            simple(
                entry["from"]["key_code"].as_str().unwrap(),
                entry["to"]["key_code"].as_str().unwrap(),
            )
        })
        .collect();
    let mut state = engine(simple_modifications, vec![]);
    assert_eq!(send(&mut state, KEY_CAPSLOCK, Pressed), vec![(KEY_LEFTCTRL, Pressed)]);
    assert_eq!(send(&mut state, KEY_CAPSLOCK, Released), vec![(KEY_LEFTCTRL, Released)]);
}

#[test]
fn a_rule_comes_before_a_substitution_for_the_same_key() {
    let mut state = engine(
        vec![simple("a", "x")],
        vec![rule("a", &[], &[], Some(vec![step(Some("b"), &[], None)]))],
    );
    assert_eq!(send(&mut state, KEY_A, Pressed), vec![(KEY_B, Pressed)]);
    assert_eq!(send(&mut state, KEY_A, Released), vec![(KEY_B, Released)]);
    // With a modifier down the rule does not apply, and the substitution does.
    send(&mut state, KEY_LEFTSHIFT, Pressed);
    assert_eq!(send(&mut state, KEY_A, Pressed), vec![(KEY_X, Pressed)]);
    assert_eq!(send(&mut state, KEY_A, Released), vec![(KEY_X, Released)]);
}

#[test]
fn a_rule_sees_the_key_as_it_came_and_not_as_substituted() {
    let mut state = engine(
        vec![simple("a", "x")],
        vec![rule("x", &[], &[], Some(vec![step(Some("y"), &[], None)]))],
    );
    assert_eq!(send(&mut state, KEY_A, Pressed), vec![(KEY_X, Pressed)]);
    assert_eq!(send(&mut state, KEY_X, Pressed), vec![(KEY_Y, Pressed)]);
}

#[test]
fn the_first_rule_that_matches_wins() {
    let mut state = engine(
        vec![],
        vec![
            rule("a", &["shift"], &[], Some(vec![step(Some("b"), &[], Some(false))])),
            rule("a", &[], &["any"], Some(vec![step(Some("c"), &[], Some(false))])),
            rule("a", &[], &["any"], Some(vec![step(Some("d"), &[], Some(false))])),
        ],
    );
    assert_eq!(send(&mut state, KEY_A, Pressed), vec![(KEY_C, Pressed), (KEY_C, Released)]);
    send(&mut state, KEY_A, Released);
    send(&mut state, KEY_LEFTSHIFT, Pressed);
    assert_eq!(
        send(&mut state, KEY_A, Pressed),
        vec![
            (KEY_LEFTSHIFT, Released),
            (KEY_B, Pressed),
            (KEY_B, Released),
            (KEY_LEFTSHIFT, Pressed),
        ]
    );
}

#[test]
fn a_release_goes_to_the_rule_that_took_the_press() {
    let mut state = engine(
        vec![],
        vec![
            rule("a", &["shift"], &[], Some(vec![step(Some("b"), &[], None)])),
            rule("a", &[], &[], Some(vec![step(Some("c"), &[], None)])),
        ],
    );
    send(&mut state, KEY_LEFTSHIFT, Pressed);
    assert_eq!(
        send(&mut state, KEY_A, Pressed),
        vec![(KEY_LEFTSHIFT, Released), (KEY_B, Pressed), (KEY_LEFTSHIFT, Pressed)]
    );
    // The modifier comes up before the key: the first rule still gets the release.
    send(&mut state, KEY_LEFTSHIFT, Released);
    assert_eq!(send(&mut state, KEY_A, Released), vec![(KEY_B, Released)]);
}

#[test]
fn a_second_press_of_a_key_that_a_rule_holds_is_passed_on() {
    let mut state = engine(
        vec![],
        vec![
            rule("a", &[], &[], Some(vec![step(Some("b"), &[], None)])),
            rule("a", &[], &["any"], Some(vec![step(Some("c"), &[], None)])),
        ],
    );
    assert_eq!(send(&mut state, KEY_A, Pressed), vec![(KEY_B, Pressed)]);
    assert_eq!(send(&mut state, KEY_A, Pressed), vec![(KEY_A, Pressed)]);
    assert_eq!(send(&mut state, KEY_A, Released), vec![(KEY_B, Released)]);
    assert_eq!(send(&mut state, KEY_A, Released), vec![(KEY_A, Released)]);
}

#[test]
fn autorepeat_and_unknown_values_are_passed_on_as_they_came() {
    let mut state = engine(
        vec![simple("e", "f"), simple("caps_lock", "left_control")],
        vec![rule("a", &[], &[], Some(vec![step(Some("b"), &[], None)]))],
    );
    // While a rule is at work for the key.
    assert_eq!(send(&mut state, KEY_A, Pressed), vec![(KEY_B, Pressed)]);
    assert_eq!(send(&mut state, KEY_A, Autorepeat), vec![(KEY_A, Autorepeat)]);
    assert_eq!(send(&mut state, KEY_A, KeyState::Unknown(7)), vec![(KEY_A, KeyState::Unknown(7))]);
    assert_eq!(send(&mut state, KEY_A, Released), vec![(KEY_B, Released)]);
    // A key with a substitution is not substituted.
    assert_eq!(send(&mut state, KEY_E, Pressed), vec![(KEY_F, Pressed)]);
    assert_eq!(send(&mut state, KEY_E, Autorepeat), vec![(KEY_E, Autorepeat)]);
    assert_eq!(send(&mut state, KEY_E, KeyState::Unknown(-1)), vec![(KEY_E, KeyState::Unknown(-1))]);
    assert_eq!(send(&mut state, KEY_E, Released), vec![(KEY_F, Released)]);
    assert_eq!(send(&mut state, KEY_CAPSLOCK, Pressed), vec![(KEY_LEFTCTRL, Pressed)]);
    assert_eq!(send(&mut state, KEY_CAPSLOCK, Autorepeat), vec![(KEY_CAPSLOCK, Autorepeat)]);
    assert_eq!(state.pressed_modifiers(), vec![ModifierKey::LeftControl]);
}

#[test]
fn autorepeat_and_unknown_values_leave_the_modifier_keys_that_are_down_alone() {
    let mut state = engine(vec![], vec![]);
    // An autorepeat of a key that is not down does not put it down.
    assert_eq!(send(&mut state, KEY_LEFTALT, Autorepeat), vec![(KEY_LEFTALT, Autorepeat)]);
    assert!(state.pressed_modifiers().is_empty());
    send(&mut state, KEY_LEFTCTRL, Pressed);
    send(&mut state, KEY_LEFTSHIFT, Pressed);
    // An unknown value does not take a key away, an autorepeat does not move it.
    assert_eq!(
        send(&mut state, KEY_LEFTSHIFT, KeyState::Unknown(3)),
        vec![(KEY_LEFTSHIFT, KeyState::Unknown(3))]
    );
    assert_eq!(send(&mut state, KEY_LEFTCTRL, Autorepeat), vec![(KEY_LEFTCTRL, Autorepeat)]);
    assert_eq!(
        state.pressed_modifiers(),
        vec![ModifierKey::LeftControl, ModifierKey::LeftShift]
    );
}

fn lazy_step(key_code: &str) -> KBToDefinition {
    KBToDefinition {
        key_code: Some(key_code.to_string()),
        modifiers: None,
        shell_command: None,
        repeat: None,
        lazy: Some(true),
    }
}

#[test]
fn lazy_events_wait_for_the_next_press_or_release() {
    let mut state = engine(
        vec![],
        vec![rule("x", &[], &[], Some(vec![lazy_step("left_shift")]))],
    );
    let at = |sec: i64| TimeVal::new(sec, 0);
    let key = |code: u16, value: i32, time: TimeVal| InputEvent::new(&time, EV_KEY, code, value);

    // The press of the lazy step is held back.
    let mapped = state.get_mapped_events(key(KEY_X, 1, at(1)));
    assert!(mapped.events.is_empty());
    assert_eq!(
        state.withheld_events(),
        vec![KeyEvent::new(&at(1), &KeyCode::new(KEY_LEFTSHIFT), Pressed, true)]
    );
    // An autorepeat forces nothing out.
    let mapped = state.get_mapped_events(key(KEY_X, 2, at(2)));
    assert_eq!(mapped.events, vec![key(KEY_X, 2, at(2))]);
    assert_eq!(state.withheld_events().len(), 1);
    // Another key does: what was held back goes first, with the time of that event.
    let mapped = state.get_mapped_events(key(KEY_A, 1, at(3)));
    assert_eq!(mapped.events, vec![key(KEY_LEFTSHIFT, 1, at(3)), key(KEY_A, 1, at(3))]);
    assert!(state.withheld_events().is_empty());
    let mapped = state.get_mapped_events(key(KEY_A, 0, at(4)));
    assert_eq!(mapped.events, vec![key(KEY_A, 0, at(4))]);
    // The release of the lazy step is lazy too: it waits for the event after.
    let mapped = state.get_mapped_events(key(KEY_X, 0, at(5)));
    assert!(mapped.events.is_empty());
    assert_eq!(
        state.withheld_events(),
        vec![KeyEvent::new(&at(5), &KeyCode::new(KEY_LEFTSHIFT), Released, true)]
    );
    let mapped = state.get_mapped_events(key(KEY_B, 1, at(6)));
    assert_eq!(mapped.events, vec![key(KEY_LEFTSHIFT, 0, at(6)), key(KEY_B, 1, at(6))]);
    assert!(state.withheld_events().is_empty());
}

#[test]
fn lazy_events_of_a_rule_go_out_after_its_eager_ones_and_in_their_order() {
    let mut state = engine(
        vec![],
        vec![rule(
            "x",
            &["any"],
            &[],
            Some(vec![
                KBToDefinition { modifiers: names(&["left_control"]), ..lazy_step("a") },
                step(Some("b"), &[], Some(false)),
            ]),
        )],
    );
    send(&mut state, KEY_LEFTALT, Pressed);
    // The cancel, the second step and the restore are not lazy.
    assert_eq!(
        send(&mut state, KEY_X, Pressed),
        vec![(KEY_LEFTALT, Released), (KEY_B, Pressed), (KEY_B, Released), (KEY_LEFTALT, Pressed)]
    );
    let withheld: Vec<(u16, KeyState)> =
        state.withheld_events().iter().map(|event| (event.key.code, event.state)).collect();
    assert_eq!(
        withheld,
        vec![
            (KEY_LEFTCTRL, Pressed),
            (KEY_A, Pressed),
            (KEY_A, Released),
            (KEY_LEFTCTRL, Released),
        ]
    );
    assert_eq!(
        send(&mut state, KEY_X, Released),
        vec![
            (KEY_LEFTCTRL, Pressed),
            (KEY_A, Pressed),
            (KEY_A, Released),
            (KEY_LEFTCTRL, Released),
        ]
    );
    assert!(state.withheld_events().is_empty());
}

#[test]
fn events_that_are_not_of_a_key_send_nothing_and_change_nothing() {
    let mut state = engine(
        vec![simple("a", "b")],
        vec![rule("c", &[], &[], Some(vec![step(Some("d"), &[], None)]))],
    );
    send(&mut state, KEY_LEFTSHIFT, Pressed);
    let time = TimeVal::new(0, 0);
    for event in [
        InputEvent::new(&time, EV_SYN, 0, 0),
        InputEvent::new(&time, EV_MSC, 4, 30),
        InputEvent::new(&time, EV_MSC, KEY_LEFTSHIFT, 0),
        InputEvent::new(&time, 2, KEY_A, 1),
        InputEvent::new(&time, 17, KEY_C, 1),
    ] {
        let mapped = state.get_mapped_events(event);
        assert!(mapped.events.is_empty());
        assert!(mapped.shell_commands.is_empty());
    }
    assert_eq!(state.pressed_modifiers(), vec![ModifierKey::LeftShift]);
}

#[test]
fn a_timeout_sends_nothing() {
    let mut state = engine(vec![simple("a", "b")], vec![]);
    let mapped = state.handle_event(Event::Timeout);
    assert!(mapped.events.is_empty());
    assert!(mapped.shell_commands.is_empty());
    let time = TimeVal::new(0, 0);
    let mapped = state.handle_event(Event::InputEvent(InputEvent::new(&time, EV_KEY, KEY_A, 1)));
    assert_eq!(mapped.events, vec![InputEvent::new(&time, EV_KEY, KEY_B, 1)]);
}

#[test]
fn every_event_of_a_batch_carries_the_time_of_the_event_that_made_it() {
    let mut state = engine(
        vec![],
        vec![rule("c", &["any"], &[], Some(vec![step(Some("d"), &["left_shift"], None)]))],
    );
    let down = TimeVal::new(100, 1);
    let up = TimeVal::new(200, 2);
    state.get_mapped_events(InputEvent::new(&TimeVal::new(50, 0), EV_KEY, KEY_LEFTALT, 1));
    let mapped = state.get_mapped_events(InputEvent::new(&down, EV_KEY, KEY_C, 1));
    assert_eq!(mapped.events.len(), 5);
    for event in &mapped.events {
        assert_eq!(event.time, down);
    }
    let mapped = state.get_mapped_events(InputEvent::new(&up, EV_KEY, KEY_C, 0));
    assert_eq!(mapped.events, vec![InputEvent::new(&up, EV_KEY, KEY_D, 0)]);
}

#[test]
fn conditions_are_not_looked_at() {
    let mut kb = rule("a", &[], &[], Some(vec![step(Some("b"), &[], None)]));
    kb.conditions = Some(vec![KBCondition {
        kind: KBConditionKind::FrontmostApplicationUnless,
        bundle_identifiers: None,
    }]);
    let mut state = engine(vec![], vec![kb]);
    assert_eq!(send(&mut state, KEY_A, Pressed), vec![(KEY_B, Pressed)]);
}

#[test]
fn a_rule_without_a_key_takes_nothing() {
    let kb = KBManipulator {
        description: None,
        kind: KBManipulatorKind::Basic,
        from: KBFromDefinition {
            key_code: None,
            modifiers: Some(KBFromModifiers { mandatory: None, optional: names(&["any"]) }),
            simultaneous: None,
            simultaneous_options: None,
        },
        to: Some(vec![step(Some("b"), &[], None)]),
        conditions: None,
    };
    let mut state = engine(vec![], vec![kb]);
    assert_eq!(
        run(&mut state, &[(KEY_A, Pressed), (KEY_A, Released)]),
        vec![(KEY_A, Pressed), (KEY_A, Released)]
    );
}

#[test]
fn a_modifier_key_that_fires_a_rule_is_tested_against_the_keys_down_before_it() {
    // Left shift alone fires; the tracker does not yet hold the key itself.
    let mut state = engine(
        vec![],
        vec![rule("left_shift", &[], &[], Some(vec![step(Some("e"), &[], Some(false))]))],
    );
    assert_eq!(send(&mut state, KEY_LEFTSHIFT, Pressed), vec![(KEY_E, Pressed), (KEY_E, Released)]);
    assert_eq!(state.pressed_modifiers(), vec![ModifierKey::LeftShift]);
    assert_eq!(send(&mut state, KEY_LEFTSHIFT, Released), vec![]);
    assert!(state.pressed_modifiers().is_empty());
}

#[test]
fn a_substituted_modifier_counts_as_the_key_it_became() {
    let mut state = engine(
        vec![simple("caps_lock", "left_control")],
        vec![rule("x", &["left_control"], &[], Some(vec![step(Some("y"), &[], Some(false))]))],
    );
    send(&mut state, KEY_CAPSLOCK, Pressed);
    assert_eq!(
        send(&mut state, KEY_X, Pressed),
        vec![(KEY_LEFTCTRL, Released), (KEY_Y, Pressed), (KEY_Y, Released), (KEY_LEFTCTRL, Pressed)]
    );
}

#[test]
fn an_instance_is_released_once() {
    let down = TimeVal::new(10, 0);
    let up = TimeVal::new(11, 500);
    let key = |code: u16, state: KeyState, time: &TimeVal, lazy: bool| {
        KeyEvent::new(time, &KeyCode::new(code), state, lazy)
    };
    let mut instance = ManipulationInstance {
        source_key: KeyCode::new(KEY_X),
        press_time: down,
        key_up_already_emitted: false,
        cancelled_mandatory_modifiers: vec![ModifierKey::LeftAlt, ModifierKey::Capslock],
        deferred_release_events: vec![
            key(KEY_D, Released, &down, true),
            key(KEY_LEFTSHIFT, Released, &down, false),
        ],
    };
    let mut queue = vec![key(KEY_G, Pressed, &down, false)];
    instance.release(&up, &mut queue);
    assert_eq!(
        queue,
        vec![
            key(KEY_G, Pressed, &down, false),
            key(KEY_D, Released, &up, true),
            key(KEY_LEFTSHIFT, Released, &up, false),
            key(KEY_LEFTALT, Pressed, &up, false),
            key(KEY_CAPSLOCK, Pressed, &up, false),
        ]
    );
    assert!(instance.key_up_already_emitted);
    assert!(instance.cancelled_mandatory_modifiers.is_empty());
    assert!(instance.deferred_release_events.is_empty());
    assert_eq!(instance.source_key, KeyCode::new(KEY_X));
    assert_eq!(instance.press_time, down);

    let mut queue = vec![];
    instance.release(&up, &mut queue);
    assert!(queue.is_empty());

    // A marked instance sends nothing, whatever it still holds.
    instance.deferred_release_events.push(key(KEY_D, Released, &down, false));
    instance.release(&up, &mut queue);
    assert!(queue.is_empty());
    assert_eq!(instance.deferred_release_events.len(), 1);

    let mut queue = vec![];
    push_modifier_events(
        &mut queue,
        &vec![ModifierKey::RightShift, ModifierKey::LeftControl],
        Pressed,
        &up,
        true,
    );
    assert_eq!(
        queue,
        vec![key(KEY_RIGHTSHIFT, Pressed, &up, true), key(KEY_LEFTCTRL, Pressed, &up, true)]
    );
}
