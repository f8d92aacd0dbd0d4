//! The typing monitor from key events to actions.
use handy::binary64::Binary64;
use handy::focused_input::{FocusedInput, ScreenRect};
use handy::keys::{
    classify_key, has_shortcut_modifiers, Key, KeyEvent, KeyKind, Modifiers, CMD, CTRL_LEFT, FN,
    OPT_LEFT, OPT_RIGHT, SHIFT, SHIFT_LEFT,
};
use handy::typing_monitor::{
    start_error, KeyStep, MachineAction, Monitor, SessionMachine, SessionState, StartFailure,
};

fn field(identity: u64) -> FocusedInput {
    let side = Binary64 {
        bits: 100.0_f64.to_bits(),
    };
    FocusedInput {
        identity,
        bounds: ScreenRect {
            x: side,
            y: side,
            width: side,
            height: side,
        },
    }
}

fn press(key: Key, bits: u32) -> KeyEvent {
    KeyEvent {
        modifiers: Modifiers::of(bits),
        key: Some(key),
        is_key_down: true,
        changed_modifier: None,
    }
}

fn release(key: Key) -> KeyEvent {
    KeyEvent {
        is_key_down: false,
        ..press(key, 0)
    }
}

const QUIET: KeyStep = KeyStep::Act(MachineAction::Nothing);

#[test]
fn right_option_types_except_on_macos() {
    assert!(!has_shortcut_modifiers(Modifiers::of(OPT_RIGHT), false));
    assert!(has_shortcut_modifiers(Modifiers::of(OPT_RIGHT), true));
    assert!(has_shortcut_modifiers(Modifiers::of(OPT_LEFT), false));
    assert!(has_shortcut_modifiers(Modifiers::of(OPT_LEFT | OPT_RIGHT), false));
    assert!(has_shortcut_modifiers(Modifiers::of(FN), false));
    assert!(has_shortcut_modifiers(Modifiers::of(CTRL_LEFT), true));
    assert!(!has_shortcut_modifiers(Modifiers::of(SHIFT), true));
    assert_eq!(classify_key(Key::E, Modifiers::of(OPT_RIGHT), false), KeyKind::Typing);
    assert_eq!(classify_key(Key::E, Modifiers::of(OPT_RIGHT), true), KeyKind::Other);
}

#[test]
fn keys_that_do_not_change_text_are_other() {
    for key in [Key::Tab, Key::Escape, Key::F5, Key::LeftArrow, Key::MouseLeft, Key::KeypadClear] {
        assert_eq!(classify_key(key, Modifiers::empty(), false), KeyKind::Other);
    }
    for key in [Key::Space, Key::Delete, Key::JisYen, Key::KeypadComma, Key::Section] {
        assert_eq!(classify_key(key, Modifiers::empty(), false), KeyKind::Typing);
    }
    for key in [Key::Return, Key::KeypadEnter] {
        assert_eq!(classify_key(key, Modifiers::empty(), false), KeyKind::Submit);
        assert_eq!(classify_key(key, Modifiers::of(SHIFT_LEFT), false), KeyKind::Submit);
        assert_eq!(classify_key(key, Modifiers::of(SHIFT | CMD), false), KeyKind::Submit);
    }
}

#[test]
fn shown_field_is_followed_and_left() {
    let mut machine = SessionMachine::default();
    machine.on_typing(0, Some(field(1)), 1_000);
    assert_eq!(machine.on_typing(1_000, Some(field(1)), 1_000), MachineAction::Show(field(1).bounds));
    assert!(machine.is_shown());
    assert_eq!(machine.refresh_focus(Some(field(1))), MachineAction::Move(field(1).bounds));
    assert_eq!(machine.refresh_focus(Some(field(2))), MachineAction::Hide);
    assert_eq!(machine.state, SessionState::Idle);
    assert_eq!(machine.refresh_focus(None), MachineAction::Nothing);
}

#[test]
fn session_ends_without_input_or_focus() {
    let mut machine = SessionMachine::default();
    machine.on_typing(0, Some(field(1)), 0);
    machine.on_typing(10, Some(field(1)), 0);
    assert_eq!(machine.tick(5_009), MachineAction::Nothing);
    assert_eq!(machine.tick(5_010), MachineAction::Hide);
    machine.on_typing(6_000, Some(field(1)), 0);
    machine.on_typing(6_001, Some(field(1)), 0);
    assert_eq!(machine.on_typing(6_002, None, 0), MachineAction::Hide);
    assert_eq!(machine.on_typing(6_003, None, 0), MachineAction::Nothing);
}

#[test]
fn pause_starts_tracking_over() {
    let mut machine = SessionMachine::default();
    machine.on_typing(0, Some(field(1)), 1_000);
    assert_eq!(machine.on_typing(5_000, Some(field(1)), 1_000), MachineAction::Nothing);
    assert_eq!(
        machine.state,
        SessionState::Tracking {
            started_at: 5_000,
            last_input_at: 5_000,
            target: 1
        }
    );
    // A clock that goes back counts as no time.
    assert_eq!(machine.on_typing(4_000, Some(field(1)), 1_000), MachineAction::Nothing);
}

#[test]
fn suppressed_typing_does_not_count() {
    let mut machine = SessionMachine::default();
    assert_eq!(machine.suppress(100), MachineAction::Hide);
    assert!(machine.is_suppressed());
    assert_eq!(machine.on_typing(4_000, Some(field(1)), 0), MachineAction::Nothing);
    assert_eq!(machine.tick(8_999), MachineAction::Nothing);
    assert!(machine.is_suppressed());
    assert_eq!(machine.tick(9_000), MachineAction::Nothing);
    assert_eq!(machine.state, SessionState::Idle);
}

#[test]
fn monitor_asks_for_the_focus_when_text_is_typed() {
    let mut monitor = Monitor::new(7);
    assert_eq!(monitor.observe_suppression(0, 7, false), MachineAction::Nothing);
    assert_eq!(monitor.on_key(press(Key::A, 0), false, false), KeyStep::LookUpFocus);
    assert_eq!(monitor.typed_into(0, Some(field(1)), 1), MachineAction::Nothing);
    assert_eq!(monitor.on_time(0), (MachineAction::Nothing, false));
    // The key repeats while it is held.
    assert_eq!(monitor.on_key(press(Key::A, 0), false, false), QUIET);
    assert_eq!(monitor.on_key(release(Key::A), false, false), QUIET);
    assert_eq!(monitor.on_key(press(Key::A, 0), false, false), KeyStep::LookUpFocus);
    assert_eq!(monitor.typed_into(1_000, Some(field(1)), 1), MachineAction::Show(field(1).bounds));
    // The focus is looked at every quarter of a second.
    assert_eq!(monitor.on_time(1_000), (MachineAction::Nothing, true));
    assert_eq!(monitor.refresh_focus(Some(field(1))), MachineAction::Move(field(1).bounds));
    assert_eq!(monitor.on_time(1_249), (MachineAction::Nothing, false));
    assert_eq!(monitor.on_time(1_250), (MachineAction::Nothing, true));
    assert_eq!(
        monitor.on_key(press(Key::Return, 0), false, false),
        KeyStep::Act(MachineAction::Hide)
    );
    assert_eq!(monitor.on_time(1_300), (MachineAction::Nothing, false));
}

#[test]
fn monitor_ignores_injected_keys() {
    let mut monitor = Monitor::new(0);
    assert_eq!(monitor.observe_suppression(5, 0, true), MachineAction::Hide);
    assert_eq!(monitor.observe_suppression(6, 0, true), MachineAction::Nothing);
    assert_eq!(monitor.on_key(press(Key::A, 0), true, false), QUIET);
    assert_eq!(monitor.on_key(release(Key::A), true, false), QUIET);
    assert_eq!(monitor.observe_suppression(7, 1, false), MachineAction::Hide);
    assert_eq!(monitor.observe_suppression(8, 1, false), MachineAction::Nothing);
    assert!(monitor.machine.is_suppressed());
}

#[test]
fn modifier_events_have_no_key() {
    let mut monitor = Monitor::new(0);
    let event = KeyEvent {
        modifiers: Modifiers::of(SHIFT_LEFT),
        key: None,
        is_key_down: true,
        changed_modifier: Some(Modifiers::of(SHIFT_LEFT)),
    };
    assert_eq!(monitor.on_key(event, false, false), QUIET);
}

#[test]
fn start_failures_say_why() {
    assert_eq!(
        start_error(StartFailure::Listener, "no access"),
        "Unable to monitor global typing: no access"
    );
    assert_eq!(
        start_error(StartFailure::Thread, "no memory"),
        "Unable to start the typing monitor thread: no memory"
    );
}
