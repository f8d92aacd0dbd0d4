//! Typing sessions and the keys that make them.
use handy::binary64::Binary64;
use handy::focused_input::{FocusedInput, ScreenRect};
use handy::keys::{
    classify_key, update_pressed_keys, Key, KeyEvent, KeyKind, Modifiers, PressedKeys, CMD, SHIFT,
};
use handy::typing_monitor::{MachineAction, SessionMachine, SessionState};

/// The double `x`.
fn number(x: f64) -> Binary64 {
    Binary64 { bits: x.to_bits() }
}

fn focus(identity: u64) -> FocusedInput {
    FocusedInput {
        identity,
        bounds: ScreenRect {
            x: number(10.0),
            y: number(20.0),
            width: number(300.0),
            height: number(40.0),
        },
    }
}

#[test]
fn sustained_threshold_requires_a_later_real_key() {
    let mut machine = SessionMachine::default();
    assert_eq!(
        machine.on_typing(0, Some(focus(1)), 5_000),
        MachineAction::Nothing
    );
    assert_eq!(machine.tick(5_000), MachineAction::Nothing);
    assert_eq!(machine.state, SessionState::Idle);

    assert_eq!(
        machine.on_typing(6_000, Some(focus(1)), 5_000),
        MachineAction::Nothing
    );
    assert_eq!(
        machine.on_typing(10_000, Some(focus(1)), 5_000),
        MachineAction::Nothing
    );
    assert_eq!(
        machine.on_typing(11_100, Some(focus(1)), 5_000),
        MachineAction::Show(focus(1).bounds)
    );
}

#[test]
fn shown_session_emits_show_only_once() {
    let mut machine = SessionMachine::default();
    machine.on_typing(0, Some(focus(1)), 1_000);
    assert!(matches!(
        machine.on_typing(1_000, Some(focus(1)), 1_000),
        MachineAction::Show(_)
    ));
    assert!(matches!(
        machine.on_typing(1_100, Some(focus(1)), 1_000),
        MachineAction::Move(_)
    ));
}

#[test]
fn enter_hides_and_next_message_starts_fresh() {
    let mut machine = SessionMachine::default();
    machine.on_typing(0, Some(focus(1)), 1_000);
    machine.on_typing(1_000, Some(focus(1)), 1_000);
    assert_eq!(machine.submit(), MachineAction::Hide);
    assert_eq!(machine.state, SessionState::Idle);
    assert_eq!(
        machine.on_typing(2_000, Some(focus(1)), 1_000),
        MachineAction::Nothing
    );
    assert!(matches!(machine.state, SessionState::Tracking { .. }));
    assert_eq!(
        machine.on_typing(3_000, Some(focus(1)), 1_000),
        MachineAction::Show(focus(1).bounds)
    );
}

#[test]
fn target_change_hides_and_restarts_tracking() {
    let mut machine = SessionMachine::default();
    machine.on_typing(0, Some(focus(1)), 1_000);
    machine.on_typing(1_000, Some(focus(1)), 1_000);
    assert_eq!(
        machine.on_typing(1_100, Some(focus(2)), 1_000),
        MachineAction::Hide
    );
    assert!(matches!(
        machine.state,
        SessionState::Tracking { target: 2, .. }
    ));
}

#[test]
fn held_key_repeat_is_ignored_until_release() {
    let mut pressed = PressedKeys::new();
    let down = KeyEvent {
        modifiers: Modifiers::empty(),
        key: Some(Key::A),
        is_key_down: true,
        changed_modifier: None,
    };
    assert_eq!(
        update_pressed_keys(&mut pressed, down),
        Some((Key::A, true))
    );
    assert_eq!(
        update_pressed_keys(&mut pressed, down),
        Some((Key::A, false))
    );
    let up = KeyEvent {
        is_key_down: false,
        ..down
    };
    assert_eq!(update_pressed_keys(&mut pressed, up), Some((Key::A, false)));
    assert_eq!(
        update_pressed_keys(&mut pressed, down),
        Some((Key::A, true))
    );
}

#[test]
fn classifier_ignores_shortcuts_but_submit_always_wins() {
    assert_eq!(classify_key(Key::A, Modifiers::of(CMD), false), KeyKind::Other);
    assert_eq!(classify_key(Key::Return, Modifiers::of(CMD), false), KeyKind::Submit);
    assert_eq!(classify_key(Key::Return, Modifiers::of(SHIFT), false), KeyKind::Typing);
    assert_eq!(classify_key(Key::A, Modifiers::of(SHIFT), false), KeyKind::Typing);
}
