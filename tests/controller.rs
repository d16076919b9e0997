use landmass::controller::{frame_steps, CameraStep};
use landmass::keyboard::{KeyAction, KeyName, Keyboard};

#[test]
fn reset_wins_over_held_forward() {
    let mut kb = Keyboard::new();
    kb.key_input(Some(KeyName::W), KeyAction::Pressed);
    kb.key_input(Some(KeyName::Escape), KeyAction::Pressed);
    assert_eq!(frame_steps(&kb), vec![CameraStep::Reset]);
}

#[test]
fn idle_keyboard_asks_nothing() {
    assert_eq!(frame_steps(&Keyboard::new()), Vec::<CameraStep>::new());
}

#[test]
fn held_buttons_give_rotations_then_moves() {
    let mut kb = Keyboard::new();
    kb.key_input(Some(KeyName::D), KeyAction::Pressed);
    kb.key_input(Some(KeyName::W), KeyAction::Pressed);
    kb.key_input(Some(KeyName::Left), KeyAction::Pressed);
    kb.key_input(Some(KeyName::Down), KeyAction::Pressed);
    assert_eq!(
        frame_steps(&kb),
        vec![CameraStep::PitchDown, CameraStep::YawLeft, CameraStep::Forward, CameraStep::StrafeRight]
    );
}

#[test]
fn reset_pulse_lasts_one_frame() {
    let mut kb = Keyboard::new();
    kb.key_input(Some(KeyName::Escape), KeyAction::Pressed);
    kb.key_input(Some(KeyName::S), KeyAction::Pressed);
    assert_eq!(frame_steps(&kb), vec![CameraStep::Reset]);
    kb.reset_triggers();
    assert_eq!(frame_steps(&kb), vec![CameraStep::Backward]);
}
