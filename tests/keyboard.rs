use landmass::keyboard::{Key, KeyAction, KeyName, Keyboard};

#[test]
fn new_key_is_released_without_pulses() {
    let k = Key::new();
    assert!(!k.state);
    assert!(!k.trigger_pressed);
    assert!(!k.trigger_release);
}

#[test]
fn press_sets_held_and_pulse_then_reset_clears_pulse_only() {
    let mut kb = Keyboard::new();
    kb.key_input(Some(KeyName::W), KeyAction::Pressed);
    assert!(kb.w.state);
    assert!(kb.w.trigger_pressed);
    assert!(!kb.w.trigger_release);
    kb.reset_triggers();
    assert!(!kb.w.trigger_pressed);
    assert!(kb.w.state);
}

#[test]
fn release_clears_held_and_raises_release_pulse() {
    let mut k = Key::new();
    k.pressed();
    k.release();
    assert!(!k.state);
    assert!(k.trigger_pressed);
    assert!(k.trigger_release);
}

#[test]
fn reset_triggers_clears_every_pulse() {
    let mut kb = Keyboard::new();
    kb.key_input(Some(KeyName::Escape), KeyAction::Pressed);
    kb.key_input(Some(KeyName::Left), KeyAction::Pressed);
    kb.key_input(Some(KeyName::Left), KeyAction::Released);
    kb.reset_triggers();
    assert!(kb.escape.state);
    assert!(!kb.escape.trigger_pressed);
    assert!(!kb.left.state);
    assert!(!kb.left.trigger_pressed);
    assert!(!kb.left.trigger_release);
}

#[test]
fn unknown_key_is_ignored() {
    let mut kb = Keyboard::new();
    kb.key_input(None, KeyAction::Pressed);
    assert_eq!(kb, Keyboard::new());
}

#[test]
fn event_touches_only_its_key() {
    let mut kb = Keyboard::new();
    kb.key_input(Some(KeyName::D), KeyAction::Pressed);
    let mut expected = Keyboard::new();
    expected.d = Key { state: true, trigger_pressed: true, trigger_release: false };
    assert_eq!(kb, expected);
}
