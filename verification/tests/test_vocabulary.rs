use karabinux::constants::{ALL_MODIFIER_KEYS, KARABINUX_DEVICE_NAME};
use karabinux::event::{Event, InputEvent, KeyEvent, TimeVal, EV_KEY, EV_MSC, EV_SYN};
use karabinux::karabiner::KBModifier;
use karabinux::key_state::KeyState;
use karabinux::keys::{
    KeyCode, KEY_A, KEY_BACKSPACE, KEY_CAPSLOCK, KEY_ENTER, KEY_F13, KEY_KP5, KEY_LEFTALT,
    KEY_LEFTCTRL, KEY_LEFTMETA, KEY_LEFTSHIFT, KEY_RIGHTALT, KEY_RIGHTCTRL, KEY_RIGHTMETA,
    KEY_RIGHTSHIFT, KEY_Z,
};
use karabinux::state::ModifierKey;
use karabinux::util::{is_karabinux_device, key_from_event_code, sync_event, EscapeWatch};

#[test]
fn key_state_reads_raw_values() {
    assert_eq!(KeyState::from(0), KeyState::Released);
    assert_eq!(KeyState::from(1), KeyState::Pressed);
    assert_eq!(KeyState::from(2), KeyState::Autorepeat);
    assert_eq!(KeyState::from(3), KeyState::Unknown(3));
    assert_eq!(KeyState::from(-1), KeyState::Unknown(-1));
}

#[test]
fn key_state_writes_raw_values() {
    assert_eq!(i32::from(KeyState::Released), 0);
    assert_eq!(i32::from(KeyState::Pressed), 1);
    assert_eq!(i32::from(KeyState::Autorepeat), 2);
    assert_eq!(i32::from(KeyState::Unknown(17)), 17);
    for value in [-5, 0, 1, 2, 3, i32::MAX, i32::MIN] {
        assert_eq!(i32::from(KeyState::from(value)), value);
    }
}

#[test]
fn modifier_keys_have_their_codes() {
    let expected = [
        (ModifierKey::Capslock, KEY_CAPSLOCK),
        (ModifierKey::LeftAlt, KEY_LEFTALT),
        (ModifierKey::RightAlt, KEY_RIGHTALT),
        (ModifierKey::LeftMeta, KEY_LEFTMETA),
        (ModifierKey::RightMeta, KEY_RIGHTMETA),
        (ModifierKey::LeftShift, KEY_LEFTSHIFT),
        (ModifierKey::RightShift, KEY_RIGHTSHIFT),
        (ModifierKey::LeftControl, KEY_LEFTCTRL),
        (ModifierKey::RightControl, KEY_RIGHTCTRL),
    ];
    for (modifier, code) in expected {
        assert_eq!(modifier.as_key(), Some(KeyCode::new(code)));
        assert_eq!(ModifierKey::from_key(&KeyCode::new(code)), Some(modifier));
        assert!(ModifierKey::is_modifier(&KeyCode::new(code)));
    }
    assert_eq!(ModifierKey::from_key(&KeyCode::new(KEY_A)), None);
    assert!(!ModifierKey::is_modifier(&KeyCode::new(KEY_A)));
    assert!(!ModifierKey::is_modifier(&KeyCode::new(0)));
    assert!(!ModifierKey::is_modifier(&KeyCode::new(u16::MAX)));
}

#[test]
fn modifier_keys_are_nine_and_are_the_listed_codes() {
    let variants = ModifierKey::variants();
    assert_eq!(variants, ModifierKey::VARIANTS.to_vec());
    assert_eq!(variants.len(), 9);
    assert_eq!(variants[0], ModifierKey::Capslock);
    assert_eq!(variants[8], ModifierKey::RightControl);
    for code in ALL_MODIFIER_KEYS {
        assert!(ModifierKey::is_modifier(&KeyCode::new(code)));
    }
    let mut count = 0;
    for code in 0..=u16::MAX {
        if ModifierKey::is_modifier(&KeyCode::new(code)) {
            count += 1;
        }
    }
    assert_eq!(count, 9);
}

#[test]
fn modifier_keys_are_read_from_names() {
    assert_eq!(ModifierKey::from_kb_key_code("caps_lock"), Some(ModifierKey::Capslock));
    assert_eq!(ModifierKey::from_kb_key_code("left_alt"), Some(ModifierKey::LeftAlt));
    assert_eq!(ModifierKey::from_kb_key_code("left_option"), Some(ModifierKey::LeftAlt));
    assert_eq!(ModifierKey::from_kb_key_code("right_alt"), Some(ModifierKey::RightAlt));
    assert_eq!(ModifierKey::from_kb_key_code("right_option"), Some(ModifierKey::RightAlt));
    assert_eq!(ModifierKey::from_kb_key_code("left_gui"), Some(ModifierKey::LeftMeta));
    assert_eq!(ModifierKey::from_kb_key_code("left_command"), Some(ModifierKey::LeftMeta));
    assert_eq!(ModifierKey::from_kb_key_code("right_gui"), Some(ModifierKey::RightMeta));
    assert_eq!(ModifierKey::from_kb_key_code("right_command"), Some(ModifierKey::RightMeta));
    assert_eq!(ModifierKey::from_kb_key_code("left_shift"), Some(ModifierKey::LeftShift));
    assert_eq!(ModifierKey::from_kb_key_code("right_shift"), Some(ModifierKey::RightShift));
    assert_eq!(ModifierKey::from_kb_key_code("left_control"), Some(ModifierKey::LeftControl));
    assert_eq!(ModifierKey::from_kb_key_code("right_control"), Some(ModifierKey::RightControl));
    assert_eq!(ModifierKey::from_kb_key_code("shift"), None);
    assert_eq!(ModifierKey::from_kb_key_code("any"), None);
    assert_eq!(ModifierKey::from_kb_key_code(""), None);
    assert_eq!(ModifierKey::from_kb_key_code("left_shift "), None);
    assert_eq!(ModifierKey::from_kb_key_code("Left_Shift"), None);
}

#[test]
fn kb_modifier_groups_have_their_members() {
    assert_eq!(KBModifier::Any.as_modifiers(), vec![]);
    assert_eq!(
        KBModifier::Alt.as_modifiers(),
        vec![ModifierKey::LeftAlt, ModifierKey::RightAlt]
    );
    assert_eq!(
        KBModifier::Meta.as_modifiers(),
        vec![ModifierKey::LeftMeta, ModifierKey::RightMeta]
    );
    assert_eq!(
        KBModifier::Shift.as_modifiers(),
        vec![ModifierKey::LeftShift, ModifierKey::RightShift]
    );
    assert_eq!(
        KBModifier::Control.as_modifiers(),
        vec![ModifierKey::LeftControl, ModifierKey::RightControl]
    );
    assert_eq!(KBModifier::Capslock.as_modifiers(), vec![ModifierKey::Capslock]);
    assert_eq!(KBModifier::RightMeta.as_modifiers(), vec![ModifierKey::RightMeta]);
}

#[test]
fn kb_modifier_of_a_single_key_stands_for_that_key() {
    for modifier in ModifierKey::variants() {
        assert_eq!(KBModifier::from_modifier(modifier).as_modifiers(), vec![modifier]);
    }
    assert_eq!(KBModifier::from_modifier(ModifierKey::LeftControl), KBModifier::LeftControl);
    assert_eq!(KBModifier::from_modifier(ModifierKey::Capslock), KBModifier::Capslock);
}

#[test]
fn kb_modifiers_are_fourteen() {
    let variants = KBModifier::variants();
    assert_eq!(variants, KBModifier::VARIANTS.to_vec());
    assert_eq!(variants.len(), 14);
    assert_eq!(variants[0], KBModifier::Any);
    assert_eq!(variants[13], KBModifier::RightControl);
}

#[test]
fn kb_modifiers_are_read_from_names() {
    assert_eq!(KBModifier::from_kb_key_code("any"), Some(KBModifier::Any));
    assert_eq!(KBModifier::from_kb_key_code("shift"), Some(KBModifier::Shift));
    assert_eq!(KBModifier::from_kb_key_code("option"), Some(KBModifier::Alt));
    assert_eq!(KBModifier::from_kb_key_code("command"), Some(KBModifier::Meta));
    assert_eq!(KBModifier::from_kb_key_code("control"), Some(KBModifier::Control));
    assert_eq!(KBModifier::from_kb_key_code("caps_lock"), Some(KBModifier::Capslock));
    assert_eq!(KBModifier::from_kb_key_code("left_option"), Some(KBModifier::LeftAlt));
    assert_eq!(KBModifier::from_kb_key_code("right_gui"), Some(KBModifier::RightMeta));
    assert_eq!(KBModifier::from_kb_key_code("right_control"), Some(KBModifier::RightControl));
    assert_eq!(KBModifier::from_kb_key_code("alt"), None);
    assert_eq!(KBModifier::from_kb_key_code("a"), None);
}

#[test]
fn keys_are_read_from_names() {
    assert_eq!(KeyCode::from_kb_key_code("a"), Some(KeyCode::new(KEY_A)));
    assert_eq!(KeyCode::from_kb_key_code("z"), Some(KeyCode::new(KEY_Z)));
    assert_eq!(KeyCode::from_kb_key_code("1"), Some(KeyCode::new(2)));
    assert_eq!(KeyCode::from_kb_key_code("0"), Some(KeyCode::new(11)));
    assert_eq!(KeyCode::from_kb_key_code("return_or_enter"), Some(KeyCode::new(KEY_ENTER)));
    assert_eq!(
        KeyCode::from_kb_key_code("delete_or_backspace"),
        Some(KeyCode::new(KEY_BACKSPACE))
    );
    assert_eq!(KeyCode::from_kb_key_code("f13"), Some(KeyCode::new(KEY_F13)));
    assert_eq!(KeyCode::from_kb_key_code("keypad_5"), Some(KeyCode::new(KEY_KP5)));
    assert_eq!(KeyCode::from_kb_key_code("up_arrow"), Some(KeyCode::new(103)));
    assert_eq!(KeyCode::from_kb_key_code("caps_lock"), Some(KeyCode::new(KEY_CAPSLOCK)));
    assert_eq!(KeyCode::from_kb_key_code("left_control"), Some(KeyCode::new(KEY_LEFTCTRL)));
    assert_eq!(KeyCode::from_kb_key_code("right_command"), Some(KeyCode::new(KEY_RIGHTMETA)));
}

#[test]
fn unknown_key_names_are_not_read() {
    assert_eq!(KeyCode::from_kb_key_code(""), None);
    assert_eq!(KeyCode::from_kb_key_code("A"), None);
    assert_eq!(KeyCode::from_kb_key_code("aa"), None);
    assert_eq!(KeyCode::from_kb_key_code("any"), None);
    assert_eq!(KeyCode::from_kb_key_code("shift"), None);
    assert_eq!(KeyCode::from_kb_key_code("f25"), None);
    assert_eq!(KeyCode::from_kb_key_code("caps_lock\n"), None);
}

#[test]
fn every_modifier_name_names_the_key_of_that_modifier() {
    for name in [
        "caps_lock",
        "left_alt",
        "left_option",
        "right_alt",
        "right_option",
        "left_gui",
        "left_command",
        "right_gui",
        "right_command",
        "left_shift",
        "right_shift",
        "left_control",
        "right_control",
    ] {
        let modifier = ModifierKey::from_kb_key_code(name).unwrap();
        assert_eq!(KeyCode::from_kb_key_code(name), modifier.as_key());
    }
}

#[test]
fn key_event_is_read_from_an_input_event() {
    let time = TimeVal::new(12, 345);
    let input = InputEvent::new(&time, EV_KEY, KEY_A, 1);
    let event = KeyEvent::from_event(input);
    assert_eq!(event.key, KeyCode::new(KEY_A));
    assert_eq!(event.state, KeyState::Pressed);
    assert_eq!(event.time, time);
    assert!(!event.lazy);
    assert_eq!(event.create_event(), input);
}

#[test]
fn key_event_is_written_without_its_lazy_mark() {
    let time = TimeVal::new(1, 2);
    let event = KeyEvent::new(&time, &KeyCode::new(KEY_Z), KeyState::Released, true);
    assert_eq!(event.key.code, KEY_Z);
    assert!(event.lazy);
    let input = event.create_event();
    assert_eq!(input, InputEvent { time, event_type: EV_KEY, event_code: KEY_Z, value: 0 });
    assert_eq!(KeyEvent::from_event(input), KeyEvent { lazy: false, ..event });
}

#[test]
fn key_event_keeps_an_unknown_value() {
    let time = TimeVal::new(0, 0);
    let input = InputEvent::new(&time, EV_KEY, KEY_A, 9);
    let event = KeyEvent::from_event(input);
    assert_eq!(event.state, KeyState::Unknown(9));
    assert_eq!(event.create_event().value, 9);
}

#[test]
fn key_is_read_from_key_events_only() {
    assert_eq!(key_from_event_code(EV_KEY, KEY_A), Some(KeyCode::new(KEY_A)));
    assert_eq!(key_from_event_code(EV_SYN, 0), None);
    assert_eq!(key_from_event_code(EV_MSC, 4), None);
}

#[test]
fn sync_event_is_a_report_with_the_given_time() {
    let time = TimeVal::new(7, 8);
    assert_eq!(
        sync_event(&time),
        InputEvent { time, event_type: 0, event_code: 0, value: 0 }
    );
}

#[test]
fn device_names_are_told_by_their_beginning() {
    assert_eq!(KARABINUX_DEVICE_NAME, "KarabinuxDevice: ");
    assert!(is_karabinux_device("KarabinuxDevice: USB Keyboard"));
    assert!(is_karabinux_device("KarabinuxDevice: "));
    assert!(!is_karabinux_device("KarabinuxDevice:"));
    assert!(!is_karabinux_device("USB Keyboard"));
    assert!(!is_karabinux_device("x KarabinuxDevice: "));
    assert!(!is_karabinux_device(""));
}

#[test]
fn escape_watch_wants_backspace_twice_in_a_row() {
    let time = TimeVal::new(0, 0);
    let press = |code: u16| InputEvent::new(&time, EV_KEY, code, 1);
    let release = |code: u16| InputEvent::new(&time, EV_KEY, code, 0);
    let mut watch = EscapeWatch::new();
    assert_eq!(watch.last_pressed, 0);
    assert!(!watch.observe(&press(KEY_BACKSPACE)));
    assert!(!watch.observe(&release(KEY_BACKSPACE)));
    assert!(watch.observe(&press(KEY_BACKSPACE)));

    let mut watch = EscapeWatch::new();
    assert!(!watch.observe(&press(KEY_BACKSPACE)));
    assert!(!watch.observe(&press(KEY_A)));
    assert_eq!(watch.last_pressed, KEY_A);
    assert!(!watch.observe(&press(KEY_BACKSPACE)));
    assert!(!watch.observe(&InputEvent::new(&time, EV_SYN, 0, 0)));
    assert!(!watch.observe(&InputEvent::new(&time, EV_MSC, KEY_BACKSPACE, 1)));
    assert!(watch.observe(&press(KEY_BACKSPACE)));
}

#[test]
fn events_compare_by_what_they_hold() {
    let time = TimeVal::new(3, 4);
    let input = InputEvent::new(&time, EV_KEY, KEY_A, 1);
    assert_eq!(Event::InputEvent(input), Event::InputEvent(input));
    assert_ne!(Event::InputEvent(input), Event::Timeout);
}
