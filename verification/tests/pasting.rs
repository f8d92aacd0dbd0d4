//! Decisions around pasting.
use handy::clipboard::outcome::{
    clipboard_restore_decision, linux_clipboard_strategy, macos_paste_observed,
    should_send_auto_submit, should_use_direct_text_transport, should_write_post_paste_clipboard,
    wayland_dispatch_outcome, ClipboardPasteOutcome, ClipboardRestoreDecision,
    LinuxClipboardStrategy,
};
use handy::clipboard::provider::{
    linux_provider_transition, LinuxProviderInput, LinuxProviderState,
};
use handy::settings::PasteMethod;

#[test]
fn auto_submit_requires_setting_enabled() {
    assert!(!should_send_auto_submit(
        false,
        PasteMethod::CtrlV,
        &ClipboardPasteOutcome::Confirmed
    ));
    assert!(!should_send_auto_submit(
        false,
        PasteMethod::Direct,
        &ClipboardPasteOutcome::Confirmed
    ));
}

#[test]
fn macos_clipboard_methods_never_use_the_clipboard_as_transport() {
    for method in [
        PasteMethod::CtrlV,
        PasteMethod::CtrlShiftV,
        PasteMethod::ShiftInsert,
    ] {
        assert!(should_use_direct_text_transport(true, &method));
        assert!(!should_use_direct_text_transport(false, &method));
    }

    assert!(!should_use_direct_text_transport(
        true,
        &PasteMethod::Direct
    ));
    assert!(!should_use_direct_text_transport(true, &PasteMethod::Nothing));
}

#[test]
fn auto_submit_skips_none_paste_method() {
    assert!(!should_send_auto_submit(
        true,
        PasteMethod::Nothing,
        &ClipboardPasteOutcome::Confirmed
    ));
}

#[test]
fn auto_submit_runs_for_active_paste_methods() {
    for method in [
        PasteMethod::CtrlV,
        PasteMethod::Direct,
        PasteMethod::CtrlShiftV,
        PasteMethod::ShiftInsert,
    ] {
        assert!(should_send_auto_submit(
            true,
            method,
            &ClipboardPasteOutcome::Confirmed
        ));
    }
}

#[test]
fn auto_submit_is_blocked_for_unconfirmed_delivery() {
    let outcome = ClipboardPasteOutcome::Unconfirmed("manual retry".into());
    assert!(!should_send_auto_submit(true, PasteMethod::CtrlV, &outcome));
    assert_eq!(outcome.failure_message(), Some("manual retry"));
}

#[test]
fn wayland_dispatches_without_wait_restore_or_error() {
    assert_eq!(
        linux_clipboard_strategy(true),
        LinuxClipboardStrategy::WaylandPersistentDispatch
    );
    assert_eq!(
        linux_clipboard_strategy(false),
        LinuxClipboardStrategy::VerifiedX11
    );

    let outcome = wayland_dispatch_outcome();
    assert_eq!(outcome, ClipboardPasteOutcome::DispatchedUnverified);
    assert_eq!(outcome.failure_message(), None);
    assert!(!should_send_auto_submit(true, PasteMethod::CtrlV, &outcome));
    assert!(!should_write_post_paste_clipboard(true, &outcome));
    assert!(should_write_post_paste_clipboard(
        true,
        &ClipboardPasteOutcome::Confirmed
    ));
}

#[test]
fn restore_only_replaces_our_transcript() {
    assert_eq!(
        clipboard_restore_decision(Some("new transcript"), "new transcript", false),
        ClipboardRestoreDecision::Restore
    );
    assert_eq!(
        clipboard_restore_decision(Some("user copied this"), "new transcript", false),
        ClipboardRestoreDecision::ClipboardChanged
    );
}

#[test]
fn missing_or_non_text_clipboard_is_never_overwritten_during_restore() {
    assert_eq!(
        clipboard_restore_decision(None, "new transcript", false),
        ClipboardRestoreDecision::TranscriptUnavailable
    );
    assert_eq!(
        clipboard_restore_decision(None, "new transcript", true),
        ClipboardRestoreDecision::ClipboardChanged
    );
}

#[test]
fn eager_clipboard_manager_requests_do_not_confirm_or_terminate_provider() {
    let state = linux_provider_transition(
        LinuxProviderState::Publishing,
        LinuxProviderInput::TextRequested {
            intended_consumer: false,
        },
    );
    assert_eq!(state, LinuxProviderState::Publishing);

    let state = linux_provider_transition(state, LinuxProviderInput::ArmPaste);
    let state = linux_provider_transition(
        state,
        LinuxProviderInput::TextRequested {
            intended_consumer: false,
        },
    );
    assert_eq!(state, LinuxProviderState::AwaitingConsumer);
}

#[test]
fn only_intended_post_arm_consumer_confirms_linux_delivery() {
    let state =
        linux_provider_transition(LinuxProviderState::Publishing, LinuxProviderInput::ArmPaste);
    let state = linux_provider_transition(
        state,
        LinuxProviderInput::TextRequested {
            intended_consumer: true,
        },
    );
    assert_eq!(state, LinuxProviderState::Confirmed);
}

#[test]
fn selection_clear_before_confirmation_is_not_delivery() {
    for state in [
        LinuxProviderState::Publishing,
        LinuxProviderState::AwaitingConsumer,
    ] {
        assert_eq!(
            linux_provider_transition(state, LinuxProviderInput::SelectionClear),
            LinuxProviderState::OwnershipLost
        );
    }
    assert_eq!(
        linux_provider_transition(
            LinuxProviderState::AwaitingConsumer,
            LinuxProviderInput::ProviderError
        ),
        LinuxProviderState::Failed
    );
}

#[test]
fn macos_verification_requires_an_observable_text_change() {
    assert!(macos_paste_observed(
        "existing text",
        "existing textnew transcript",
        "new transcript"
    ));
    assert!(!macos_paste_observed(
        "new transcript",
        "new transcript",
        "new transcript"
    ));
    assert!(!macos_paste_observed(
        "existing text",
        "different edit",
        "new transcript"
    ));
}
