//! Pasting from the first step to the last.
use handy::clipboard::delivery::{
    consumer_timeout_ms, linux_desktop, publication_step, watch_step, windows_chord,
    windows_paste_outcome, Delivery, DeliveryEvent, DeliveryPhase, DeliveryPlan, Desktop,
    InjectOutcome, PasteChord, Verdict, WaitStep, WindowsPasteOutcome, INVALID_METHOD,
    MANUAL_PASTE, MANUAL_RETRY, NOT_PUBLISHED, OFFER_UNAVAILABLE, OWNERSHIP_CHANGED,
    PROVIDER_FAILED, UNEXPECTED_TYPING, WINDOWS_FALLBACK,
};
use handy::clipboard::outcome::{
    restore_action, saved_clipboard, stroke_error, submit_strokes, ClipboardPasteOutcome,
    KeyStroke, RestoreAction, SavedClipboard, SubmitKey,
};
use handy::clipboard::paste::{
    KeyboardAccess, Paste, PasteEvent, PastePhase, PasteSettings, NO_KEYBOARD, NO_SCRIPT,
};
use handy::clipboard::provider::{LinuxPasteWaitOutcome, LinuxProviderEvent};
use handy::settings::{AutoSubmitKey, ClipboardHandling, PasteMethod};

fn failed(text: &str) -> Result<(), String> {
    Err(text.to_string())
}

/// Runs a paste through the clipboard on the given events; every phase is listed.
fn deliver(
    desktop: Desktop,
    method: PasteMethod,
    events: Vec<DeliveryEvent>,
) -> (Vec<DeliveryPhase>, Result<ClipboardPasteOutcome, String>) {
    let mut delivery = Delivery::new(DeliveryPlan::new(desktop, method));
    let mut phases = vec![delivery.phase];
    for event in events {
        delivery.proceed(event);
        phases.push(delivery.phase);
    }
    (phases, delivery.outcome())
}

fn unconfirmed(text: &str) -> Result<ClipboardPasteOutcome, String> {
    Ok(ClipboardPasteOutcome::Unconfirmed(text.to_string()))
}

/// The events up to the pressed keys on X11.
fn x11_until_pressed() -> Vec<DeliveryEvent> {
    vec![
        DeliveryEvent::Past,
        DeliveryEvent::Done(Ok(())),
        DeliveryEvent::Past,
        DeliveryEvent::Early(None),
        DeliveryEvent::Armed(Ok(())),
        DeliveryEvent::PressedWithTool(Ok(true)),
    ]
}

#[test]
fn x11_restores_after_the_target_took_the_text() {
    let mut events = x11_until_pressed();
    events.push(DeliveryEvent::Waited(LinuxPasteWaitOutcome::Confirmed));
    events.push(DeliveryEvent::Past);
    let (phases, outcome) = deliver(Desktop::X11, PasteMethod::CtrlV, events);
    assert_eq!(
        phases,
        [
            DeliveryPhase::Save,
            DeliveryPhase::Offer,
            DeliveryPhase::SleepBefore,
            DeliveryPhase::TakeEarly,
            DeliveryPhase::Arm,
            DeliveryPhase::PressWithTool,
            DeliveryPhase::AwaitConsumer,
            DeliveryPhase::Restore,
            DeliveryPhase::Finished(Verdict::Confirmed),
        ]
    );
    assert_eq!(outcome, Ok(ClipboardPasteOutcome::Confirmed));
}

#[test]
fn x11_failures_leave_the_clipboard_alone() {
    for (waited, message) in [
        (LinuxPasteWaitOutcome::OwnershipLost, OWNERSHIP_CHANGED),
        (LinuxPasteWaitOutcome::ProviderFailed, PROVIDER_FAILED),
        (LinuxPasteWaitOutcome::TimedOut, MANUAL_RETRY),
    ] {
        let mut events = x11_until_pressed();
        events.push(DeliveryEvent::Waited(waited));
        let (phases, outcome) = deliver(Desktop::X11, PasteMethod::CtrlV, events);
        assert!(!phases.contains(&DeliveryPhase::Restore));
        assert_eq!(outcome, unconfirmed(message));
    }

    let early = vec![
        DeliveryEvent::Past,
        DeliveryEvent::Done(Ok(())),
        DeliveryEvent::Past,
        DeliveryEvent::Early(Some(LinuxProviderEvent::OwnershipLost)),
    ];
    assert_eq!(
        deliver(Desktop::X11, PasteMethod::CtrlV, early).1,
        unconfirmed("Clipboard ownership was lost before paste (OwnershipLost); the current clipboard was left untouched")
    );

    let mut unarmed = x11_until_pressed();
    unarmed.truncate(4);
    unarmed.push(DeliveryEvent::Armed(Err(LinuxPasteWaitOutcome::TimedOut)));
    assert_eq!(
        deliver(Desktop::X11, PasteMethod::CtrlV, unarmed).1,
        unconfirmed("Clipboard provider could not arm paste (TimedOut); the current clipboard was left untouched")
    );
}

#[test]
fn x11_without_an_offer_keeps_a_copy() {
    let events = vec![
        DeliveryEvent::Past,
        DeliveryEvent::Done(failed("no display")),
        DeliveryEvent::Done(Ok(())),
    ];
    let (phases, outcome) = deliver(Desktop::X11, PasteMethod::CtrlV, events);
    assert_eq!(phases[2], DeliveryPhase::WriteRecovery);
    assert_eq!(outcome, unconfirmed(OFFER_UNAVAILABLE));
    let events = vec![
        DeliveryEvent::Past,
        DeliveryEvent::Done(failed("no display")),
        DeliveryEvent::Done(failed("locked")),
    ];
    assert_eq!(
        deliver(Desktop::X11, PasteMethod::CtrlV, events).1,
        Err("locked".to_string())
    );
}

#[test]
fn keys_are_pressed_by_hand_without_a_tool() {
    let mut events = x11_until_pressed();
    events.pop();
    events.push(DeliveryEvent::PressedWithTool(Ok(false)));
    events.push(DeliveryEvent::Done(failed("stuck")));
    let (phases, outcome) = deliver(Desktop::X11, PasteMethod::ShiftInsert, events);
    assert_eq!(phases[6], DeliveryPhase::Press);
    assert_eq!(outcome, Err("stuck".to_string()));

    let mut events = x11_until_pressed();
    events.pop();
    events.push(DeliveryEvent::PressedWithTool(Ok(false)));
    assert_eq!(
        deliver(Desktop::X11, PasteMethod::Direct, events).1,
        Err(INVALID_METHOD.to_string())
    );

    let mut events = x11_until_pressed();
    events.pop();
    events.push(DeliveryEvent::PressedWithTool(Err("xdotool failed: x".to_string())));
    assert_eq!(
        deliver(Desktop::X11, PasteMethod::CtrlV, events).1,
        Err("xdotool failed: x".to_string())
    );
}

#[test]
fn wayland_writes_and_dispatches() {
    let events = vec![
        DeliveryEvent::Done(Ok(())),
        DeliveryEvent::PressedWithTool(Ok(false)),
        DeliveryEvent::Done(Ok(())),
    ];
    let (phases, outcome) = deliver(linux_desktop(true), PasteMethod::CtrlShiftV, events);
    assert_eq!(
        phases,
        [
            DeliveryPhase::WritePersistent,
            DeliveryPhase::PressWithTool,
            DeliveryPhase::Press,
            DeliveryPhase::Finished(Verdict::Dispatched),
        ]
    );
    assert_eq!(outcome, Ok(ClipboardPasteOutcome::DispatchedUnverified));
    assert_eq!(
        deliver(Desktop::Wayland, PasteMethod::CtrlV, vec![DeliveryEvent::Done(failed("x"))]).1,
        Err("Failed to publish Wayland clipboard: x".to_string())
    );
    assert_eq!(linux_desktop(false), Desktop::X11);
}

#[test]
fn macos_types_the_text() {
    let (phases, outcome) = deliver(
        Desktop::MacOs,
        PasteMethod::CtrlV,
        vec![DeliveryEvent::Done(Ok(()))],
    );
    assert_eq!(phases[0], DeliveryPhase::TypeText);
    assert_eq!(outcome, Ok(ClipboardPasteOutcome::Confirmed));
    let (_, outcome) = deliver(
        Desktop::MacOs,
        PasteMethod::CtrlV,
        vec![DeliveryEvent::Done(failed("denied"))],
    );
    assert_eq!(outcome, Err("denied".to_string()));
}

#[test]
fn macos_can_watch_the_field() {
    let plan = DeliveryPlan {
        desktop: Desktop::MacOs,
        method: PasteMethod::CtrlV,
        direct: false,
    };
    for (readable, observed, expected) in [
        (true, true, Ok(ClipboardPasteOutcome::Confirmed)),
        (true, false, unconfirmed(MANUAL_RETRY)),
        (false, false, unconfirmed(MANUAL_RETRY)),
    ] {
        let mut delivery = Delivery::new(plan);
        delivery.proceed(DeliveryEvent::Past);
        assert_eq!(delivery.phase, DeliveryPhase::ReadFocused);
        delivery.proceed(DeliveryEvent::FocusedRead { readable });
        delivery.proceed(DeliveryEvent::Done(Ok(())));
        delivery.proceed(DeliveryEvent::Published { published: true });
        delivery.proceed(DeliveryEvent::Past);
        assert_eq!(delivery.phase, DeliveryPhase::Press);
        delivery.proceed(DeliveryEvent::Done(Ok(())));
        if readable {
            assert_eq!(delivery.phase, DeliveryPhase::Watch);
            delivery.proceed(DeliveryEvent::Watched { observed });
            if observed {
                assert_eq!(delivery.phase, DeliveryPhase::Restore);
                delivery.proceed(DeliveryEvent::Past);
            }
        }
        assert_eq!(delivery.outcome(), expected);
    }
}

#[test]
fn windows_restores_only_a_confirmed_read() {
    let injected = |outcome| vec![DeliveryEvent::Past, DeliveryEvent::Injected(outcome)];
    let mut events = injected(Ok(WindowsPasteOutcome::Complete { read_confirmed: true }));
    events.push(DeliveryEvent::Past);
    let (phases, outcome) = deliver(Desktop::Windows, PasteMethod::CtrlV, events);
    assert_eq!(phases[2], DeliveryPhase::Restore);
    assert_eq!(outcome, Ok(ClipboardPasteOutcome::Confirmed));
    let events = injected(Ok(WindowsPasteOutcome::Complete { read_confirmed: false }));
    assert_eq!(
        deliver(Desktop::Windows, PasteMethod::CtrlV, events).1,
        unconfirmed(MANUAL_RETRY)
    );
    let events = injected(Ok(WindowsPasteOutcome::ManualPaste("by hand".to_string())));
    assert_eq!(
        deliver(Desktop::Windows, PasteMethod::CtrlV, events).1,
        Err("by hand".to_string())
    );
}

#[test]
fn windows_falls_back_without_claiming_arrival() {
    let start = |more: Vec<DeliveryEvent>| {
        let mut events = vec![
            DeliveryEvent::Past,
            DeliveryEvent::Injected(Err("no target".to_string())),
        ];
        events.extend(more);
        deliver(Desktop::Windows, PasteMethod::CtrlV, events).1
    };
    assert_eq!(
        start(vec![
            DeliveryEvent::Done(Ok(())),
            DeliveryEvent::Published { published: true },
            DeliveryEvent::Past,
            DeliveryEvent::Done(Ok(())),
            DeliveryEvent::Past,
        ]),
        unconfirmed(WINDOWS_FALLBACK)
    );
    assert_eq!(
        start(vec![DeliveryEvent::Done(failed("locked"))]),
        Err("Failed to write to clipboard: locked".to_string())
    );
    assert_eq!(
        start(vec![
            DeliveryEvent::Done(Ok(())),
            DeliveryEvent::Published { published: false },
        ]),
        Err(NOT_PUBLISHED.to_string())
    );
}

#[test]
fn delayed_rendering_by_method_and_outcome() {
    assert_eq!(windows_chord(PasteMethod::CtrlV), Ok(PasteChord::CtrlV));
    assert_eq!(windows_chord(PasteMethod::CtrlShiftV), Ok(PasteChord::CtrlShiftV));
    assert_eq!(windows_chord(PasteMethod::ShiftInsert), Ok(PasteChord::ShiftInsert));
    assert_eq!(windows_chord(PasteMethod::Direct), Err(INVALID_METHOD.to_string()));
    for read_confirmed in [true, false] {
        assert!(matches!(
            windows_paste_outcome(Ok(InjectOutcome::Pasted { read_confirmed })),
            Ok(WindowsPasteOutcome::Complete { read_confirmed: same }) if same == read_confirmed
        ));
    }
    assert!(matches!(
        windows_paste_outcome(Ok(InjectOutcome::ClipboardOnly)),
        Ok(WindowsPasteOutcome::ManualPaste(message)) if message == MANUAL_PASTE
    ));
    assert!(matches!(
        windows_paste_outcome(Ok(InjectOutcome::Typed)),
        Err(message) if message == UNEXPECTED_TYPING
    ));
    assert!(matches!(
        windows_paste_outcome(Err("x".to_string())),
        Err(message) if message == "x"
    ));
}

#[test]
fn waiting_looks_before_it_gives_up() {
    let text = |text: &str| Some(text.to_string());
    assert_eq!(publication_step(&text("new"), "new", true), WaitStep::Arrived);
    assert_eq!(publication_step(&text("old"), "new", false), WaitStep::Again);
    assert_eq!(publication_step(&text("old"), "new", true), WaitStep::GaveUp);
    assert_eq!(publication_step(&None, "new", false), WaitStep::Again);
    assert_eq!(watch_step("old", &text("old new"), "new", false), WaitStep::Arrived);
    assert_eq!(watch_step("old", &text("old new"), "new", true), WaitStep::GaveUp);
    assert_eq!(watch_step("new", &text("new"), "new", false), WaitStep::Again);
    assert_eq!(watch_step("old", &None, "new", false), WaitStep::Again);
    assert_eq!(consumer_timeout_ms(0), 2_000);
    assert_eq!(consumer_timeout_ms(2_001), 2_001);
}

#[test]
fn saved_clipboard_prefers_text() {
    let saved = |text: Option<&str>, image: Option<u8>| {
        saved_clipboard(text.map(|text| text.to_string()), image)
    };
    assert!(matches!(saved(Some("a"), Some(1)), SavedClipboard::Text(text) if text == "a"));
    assert!(matches!(saved(Some(""), Some(1)), SavedClipboard::Image(1)));
    assert!(matches!(saved(None, Some(1)), SavedClipboard::Image(1)));
    assert!(matches!(saved(Some(""), None), SavedClipboard::Empty));
    assert!(matches!(saved(None, None), SavedClipboard::Empty));

    let text = || saved(Some("a"), None);
    assert!(matches!(
        restore_action(text(), true, true),
        RestoreAction::WriteTextWithTool(text) if text == "a"
    ));
    for (wayland, tool) in [(true, false), (false, true), (false, false)] {
        assert!(matches!(
            restore_action(text(), wayland, tool),
            RestoreAction::WriteText(text) if text == "a"
        ));
    }
    assert!(matches!(
        restore_action(saved(None, Some(4)), true, true),
        RestoreAction::WriteImage(4)
    ));
    assert!(matches!(
        restore_action(saved(None, None), true, true),
        RestoreAction::Clear
    ));
}

#[test]
fn submit_keys_go_down_and_up() {
    let stroke = |key, press| KeyStroke { key, press };
    assert_eq!(
        submit_strokes(AutoSubmitKey::Enter),
        [stroke(SubmitKey::Return, true), stroke(SubmitKey::Return, false)]
    );
    for (choice, modifier) in [
        (AutoSubmitKey::CtrlEnter, SubmitKey::Control),
        (AutoSubmitKey::CmdEnter, SubmitKey::Meta),
    ] {
        assert_eq!(
            submit_strokes(choice),
            [
                stroke(modifier, true),
                stroke(SubmitKey::Return, true),
                stroke(SubmitKey::Return, false),
                stroke(modifier, false),
            ]
        );
    }
    assert_eq!(
        stroke_error(stroke(SubmitKey::Return, true), "x"),
        "Failed to press Return key: x"
    );
    assert_eq!(
        stroke_error(stroke(SubmitKey::Meta, false), "x"),
        "Failed to release Meta/Cmd key: x"
    );
    assert_eq!(
        stroke_error(stroke(SubmitKey::Control, true), "x"),
        "Failed to press Control key: x"
    );
}

fn settings(paste_method: PasteMethod) -> PasteSettings {
    PasteSettings {
        paste_method,
        append_trailing_space: false,
        auto_submit: true,
        auto_submit_key: AutoSubmitKey::Enter,
        clipboard_handling: ClipboardHandling::CopyToClipboard,
        external_script_path: None,
    }
}

/// Brings a transcript in on the given events; every phase is listed.
fn bring_in(settings: PasteSettings, events: Vec<PasteEvent>) -> (Vec<PastePhase>, Result<(), String>) {
    let mut paste = Paste::new("text".to_string(), settings);
    let mut phases = vec![paste.phase];
    for event in events {
        paste.advance(event);
        phases.push(paste.phase);
    }
    (phases, paste.result())
}

#[test]
fn space_is_appended_where_wanted() {
    let mut wanted = settings(PasteMethod::Direct);
    wanted.append_trailing_space = true;
    assert_eq!(Paste::new("text".to_string(), wanted).text, "text ");
    assert_eq!(Paste::new("text".to_string(), settings(PasteMethod::Direct)).text, "text");
}

#[test]
fn confirmed_paste_is_sent_off_and_copied() {
    let (phases, result) = bring_in(
        settings(PasteMethod::CtrlV),
        vec![
            PasteEvent::Keyboard(KeyboardAccess::Taken),
            PasteEvent::Delivered(Ok(ClipboardPasteOutcome::Confirmed)),
            PasteEvent::Done(Ok(())),
            PasteEvent::Done(Ok(())),
        ],
    );
    assert_eq!(
        phases,
        [
            PastePhase::TakeKeyboard,
            PastePhase::Deliver,
            PastePhase::Submit,
            PastePhase::Copy,
            PastePhase::Finished { ok: true },
        ]
    );
    assert_eq!(result, Ok(()));
}

#[test]
fn unverified_or_failed_paste_is_not_followed_up() {
    let run = |outcome| {
        bring_in(
            settings(PasteMethod::CtrlV),
            vec![
                PasteEvent::Keyboard(KeyboardAccess::Taken),
                PasteEvent::Delivered(outcome),
            ],
        )
        .1
    };
    assert_eq!(run(Ok(ClipboardPasteOutcome::DispatchedUnverified)), Ok(()));
    assert_eq!(
        run(Ok(ClipboardPasteOutcome::Unconfirmed("retry".to_string()))),
        failed("retry")
    );
    assert_eq!(run(Err("broken".to_string())), failed("broken"));
}

#[test]
fn nothing_pasted_is_copied_but_not_sent_off() {
    let (phases, result) = bring_in(
        settings(PasteMethod::Nothing),
        vec![
            PasteEvent::Keyboard(KeyboardAccess::Taken),
            PasteEvent::Done(failed("locked")),
        ],
    );
    assert_eq!(phases[1], PastePhase::Copy);
    assert_eq!(result, failed("Failed to copy to clipboard: locked"));
}

#[test]
fn direct_typing_and_scripts() {
    let mut quiet = settings(PasteMethod::Direct);
    quiet.auto_submit = false;
    quiet.clipboard_handling = ClipboardHandling::DontModify;
    let (phases, result) = bring_in(
        quiet,
        vec![
            PasteEvent::Keyboard(KeyboardAccess::Taken),
            PasteEvent::Done(Ok(())),
        ],
    );
    assert_eq!(phases[1], PastePhase::TypeText);
    assert_eq!(result, Ok(()));

    let mut script = settings(PasteMethod::ExternalScript);
    script.external_script_path = Some("/bin/say".to_string());
    let (phases, result) = bring_in(
        script,
        vec![
            PasteEvent::Keyboard(KeyboardAccess::Taken),
            PasteEvent::Done(failed("exit 1")),
        ],
    );
    assert_eq!(phases[1], PastePhase::RunScript);
    assert_eq!(result, failed("exit 1"));

    for path in [None, Some(String::new())] {
        let mut script = settings(PasteMethod::ExternalScript);
        script.external_script_path = path;
        let (_, result) = bring_in(script, vec![PasteEvent::Keyboard(KeyboardAccess::Taken)]);
        assert_eq!(result, failed(NO_SCRIPT));
    }
}

#[test]
fn missing_keyboard_is_an_error() {
    let (_, result) = bring_in(
        settings(PasteMethod::CtrlV),
        vec![PasteEvent::Keyboard(KeyboardAccess::Missing)],
    );
    assert_eq!(result, failed(NO_KEYBOARD));
    assert_eq!(NO_KEYBOARD, "Enigo state not initialized");
    let (_, result) = bring_in(
        settings(PasteMethod::CtrlV),
        vec![PasteEvent::Keyboard(KeyboardAccess::Unavailable("poisoned".to_string()))],
    );
    assert_eq!(result, failed("Failed to lock Enigo: poisoned"));
}
