//! Offering the clipboard on X11.
use handy::clipboard::provider::{
    arm_outcome, check_ownership, focused_window, identities_match, offer_error, wait_outcome,
    Heard, LineageWalk, LinuxPasteWaitOutcome, LinuxProviderEvent, LinuxProviderState, OfferStep,
    Provider, ReplyKind, SelectionAtoms, SelectionRequest, ServeEvent, ServePhase, WindowIdentity,
    WindowQuery, NONE, SECRET_HINT,
};

const ATOMS: SelectionAtoms = SelectionAtoms {
    targets: 101,
    utf8_string: 102,
    utf8_mime_0: 103,
    utf8_mime_1: 104,
    text: 105,
    password_hint: 106,
};

const WINDOW: u32 = 9;

fn request(target: u32, property: u32) -> SelectionRequest {
    SelectionRequest {
        requestor: 50,
        selection: 1,
        target,
        property,
        time: 0,
        sequence: 0,
    }
}

/// Lets a window ask for the clipboard; says what was written where, and whether the
/// provider wants to know who asked.
fn ask(provider: &mut Provider, target: u32, property: u32) -> (Option<(ReplyKind, u32)>, bool) {
    let request = request(target, property);
    provider.serve(ServeEvent::SelectionRequest { owner: WINDOW, request });
    let mut written = None;
    if let ServePhase::Write { property, kind, .. } = provider.phase {
        written = Some((kind, property));
        provider.serve(ServeEvent::Written { ok: true });
    }
    assert!(matches!(provider.phase, ServePhase::Notify { .. }));
    provider.serve(ServeEvent::Notified { ok: true });
    (written, matches!(provider.phase, ServePhase::Check { requestor: 50 }))
}

#[test]
fn forms_are_answered_as_asked() {
    let mut provider = Provider::new(WINDOW, ATOMS);
    assert!(!provider.waits());
    assert_eq!(provider.offered_targets(), [101, 102, 103, 104, 105, 106]);
    assert_eq!(SECRET_HINT, "secret");
    assert_eq!(ask(&mut provider, 101, 7), (Some((ReplyKind::Targets, 7)), false));
    assert_eq!(ask(&mut provider, 106, 7), (Some((ReplyKind::Hint, 7)), false));
    assert_eq!(ask(&mut provider, 999, 7), (None, false));
    for target in [102, 103, 104, 105] {
        // Older programs do not say where the answer goes.
        assert_eq!(ask(&mut provider, target, NONE), (Some((ReplyKind::Text, target)), true));
        provider.serve(ServeEvent::Checked { intended_consumer: true });
        // Nobody is awaited before the paste is armed.
        assert_eq!(provider.state, LinuxProviderState::Publishing);
        assert_eq!(provider.phase, ServePhase::Listen);
    }
}

#[test]
fn refused_and_failed_answers_name_no_property() {
    let mut provider = Provider::new(WINDOW, ATOMS);
    provider.serve(ServeEvent::SelectionRequest { owner: WINDOW, request: request(999, 7) });
    assert_eq!(
        provider.phase,
        ServePhase::Notify { request: request(999, 7), property: NONE, delivered: false }
    );
    provider.serve(ServeEvent::Notified { ok: true });
    provider.serve(ServeEvent::SelectionRequest { owner: WINDOW, request: request(102, 7) });
    provider.serve(ServeEvent::Written { ok: false });
    assert_eq!(
        provider.phase,
        ServePhase::Notify { request: request(102, 7), property: NONE, delivered: false }
    );
    provider.serve(ServeEvent::Notified { ok: false });
    assert_eq!(provider.phase, ServePhase::Fail);
}

#[test]
fn delivery_is_confirmed_by_the_target_once() {
    let mut provider = Provider::new(WINDOW, ATOMS);
    provider.serve(ServeEvent::Quiet { armed: false });
    assert_eq!(provider.phase, ServePhase::Pause);
    provider.serve(ServeEvent::Rested);
    provider.serve(ServeEvent::Quiet { armed: true });
    assert_eq!(
        provider.phase,
        ServePhase::Announce { event: LinuxProviderEvent::PasteArmed, last: false }
    );
    provider.serve(ServeEvent::Announced);
    assert!(provider.waits());
    // A clipboard manager asks first.
    assert!(ask(&mut provider, 102, 7).1);
    provider.serve(ServeEvent::Checked { intended_consumer: false });
    assert_eq!(provider.state, LinuxProviderState::AwaitingConsumer);
    // Then the target.
    assert!(ask(&mut provider, 102, 7).1);
    provider.serve(ServeEvent::Checked { intended_consumer: true });
    assert_eq!(
        provider.phase,
        ServePhase::Announce { event: LinuxProviderEvent::DeliveryConfirmed, last: false }
    );
    provider.serve(ServeEvent::Announced);
    // Nobody is asked about any more.
    assert_eq!(ask(&mut provider, 102, 7), (Some((ReplyKind::Text, 7)), false));
    provider.serve(ServeEvent::SelectionClear { owner: WINDOW });
    assert_eq!(provider.phase, ServePhase::Stop);
    assert_eq!(provider.state, LinuxProviderState::Confirmed);
}

#[test]
fn losing_the_clipboard_is_announced() {
    let mut provider = Provider::new(WINDOW, ATOMS);
    provider.serve(ServeEvent::SelectionClear { owner: 1 });
    provider.serve(ServeEvent::SelectionRequest { owner: 1, request: request(102, 7) });
    provider.serve(ServeEvent::Unrelated);
    assert_eq!(provider.phase, ServePhase::Listen);
    provider.serve(ServeEvent::SelectionClear { owner: WINDOW });
    assert_eq!(
        provider.phase,
        ServePhase::Announce { event: LinuxProviderEvent::OwnershipLost, last: true }
    );
    provider.serve(ServeEvent::Announced);
    assert_eq!(provider.phase, ServePhase::Stop);

    let mut provider = Provider::new(WINDOW, ATOMS);
    provider.serve(ServeEvent::Broken);
    assert_eq!(provider.phase, ServePhase::Fail);
}

fn climb(window: u32, root: u32, parents: &[(u32, u32)]) -> WindowIdentity {
    let mut walk = LineageWalk::new(window, root);
    while let Some(query) = walk.next() {
        let parent = parents
            .iter()
            .find(|(child, _)| *child == query.window)
            .map(|(_, parent)| *parent);
        walk.record(None, None, parent);
    }
    walk.identity
}

#[test]
fn lineage_ends_below_the_root() {
    assert_eq!(climb(5, 1, &[(5, 4), (4, 3), (3, 1)]).lineage, [5, 4, 3]);
    assert_eq!(climb(5, 1, &[(5, 4)]).lineage, [5, 4]);
    assert_eq!(climb(5, 1, &[(5, 5)]).lineage, [5]);
    assert_eq!(climb(5, 1, &[(5, 0)]).lineage, [5]);
    assert!(climb(1, 1, &[]).lineage.is_empty());
    assert!(climb(0, 1, &[]).lineage.is_empty());
    assert_eq!(climb(5, 1, &[(5, 6), (6, 5)]).lineage.len(), 32);
}

#[test]
fn leader_and_process_are_the_first_found() {
    let mut walk = LineageWalk::new(5, 1);
    assert_eq!(walk.next(), Some(WindowQuery { window: 5, leader: true, pid: true }));
    walk.record(None, Some(700), Some(4));
    assert_eq!(walk.next(), Some(WindowQuery { window: 4, leader: true, pid: false }));
    walk.record(Some(33), Some(701), Some(3));
    assert_eq!(walk.next(), Some(WindowQuery { window: 3, leader: false, pid: false }));
    walk.record(Some(34), None, None);
    assert_eq!(walk.next(), None);
    assert_eq!(walk.identity.lineage, [5, 4, 3]);
    assert_eq!(walk.identity.leader, Some(33));
    assert_eq!(walk.identity.pid, Some(700));
}

#[test]
fn windows_belong_together_by_ancestor_leader_or_process() {
    let identity = |lineage: &[u32], leader, pid| WindowIdentity {
        lineage: lineage.to_vec(),
        leader,
        pid,
    };
    let target = identity(&[5, 4], Some(1), Some(2));
    assert!(identities_match(&identity(&[8, 4], None, None), &target));
    assert!(identities_match(&identity(&[8], Some(1), None), &target));
    assert!(identities_match(&identity(&[8], None, Some(2)), &target));
    assert!(!identities_match(&identity(&[8], Some(2), Some(1)), &target));
    let bare = identity(&[], None, None);
    assert!(!identities_match(&bare, &bare));
    assert_eq!(focused_window(Some(7), Some(3)), Some(7));
    assert_eq!(focused_window(Some(1), Some(3)), Some(3));
    assert_eq!(focused_window(Some(0), None), None);
    assert_eq!(focused_window(None, Some(3)), Some(3));
}

#[test]
fn offer_failures_say_why() {
    for (step, text) in [
        (OfferStep::Connect, "Failed to connect to X11: x"),
        (OfferStep::InternAtoms, "Failed to intern X11 clipboard atoms: x"),
        (OfferStep::ResolveAtoms, "Failed to resolve X11 clipboard atoms: x"),
        (OfferStep::AllocateWindow, "Failed to allocate X11 clipboard window: x"),
        (OfferStep::CreateWindow, "Failed to create X11 clipboard window: x"),
        (OfferStep::OwnClipboard, "Failed to own the X11 clipboard: x"),
        (OfferStep::Publish, "Failed to publish the X11 clipboard: x"),
        (OfferStep::VerifyOwnership, "Failed to verify X11 clipboard ownership: x"),
    ] {
        assert_eq!(offer_error(step, "x"), text);
    }
    assert_eq!(check_ownership(9, 9), Ok(()));
    assert_eq!(check_ownership(8, 9), Err("X11 rejected clipboard ownership".to_string()));
}

#[test]
fn waiting_trusts_delivery_only_after_arming() {
    let event = Heard::Event;
    assert_eq!(arm_outcome(event(LinuxProviderEvent::PasteArmed)), Ok(()));
    assert_eq!(arm_outcome(event(LinuxProviderEvent::DeliveryConfirmed)), Err(LinuxPasteWaitOutcome::ProviderFailed));
    assert_eq!(arm_outcome(event(LinuxProviderEvent::OwnershipLost)), Err(LinuxPasteWaitOutcome::OwnershipLost));
    assert_eq!(arm_outcome(event(LinuxProviderEvent::ProviderFailed)), Err(LinuxPasteWaitOutcome::ProviderFailed));
    assert_eq!(arm_outcome(Heard::Timeout), Err(LinuxPasteWaitOutcome::TimedOut));
    assert_eq!(arm_outcome(Heard::Disconnected), Err(LinuxPasteWaitOutcome::ProviderFailed));
    assert_eq!(wait_outcome(event(LinuxProviderEvent::DeliveryConfirmed)), LinuxPasteWaitOutcome::Confirmed);
    assert_eq!(wait_outcome(event(LinuxProviderEvent::PasteArmed)), LinuxPasteWaitOutcome::ProviderFailed);
    assert_eq!(wait_outcome(event(LinuxProviderEvent::OwnershipLost)), LinuxPasteWaitOutcome::OwnershipLost);
    assert_eq!(wait_outcome(event(LinuxProviderEvent::ProviderFailed)), LinuxPasteWaitOutcome::ProviderFailed);
    assert_eq!(wait_outcome(Heard::Timeout), LinuxPasteWaitOutcome::TimedOut);
    assert_eq!(wait_outcome(Heard::Disconnected), LinuxPasteWaitOutcome::ProviderFailed);
}
