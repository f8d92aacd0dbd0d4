//! What holds of offering the clipboard on X11.
use super::provider::{
    arm_result, belong_together, climbed, offer_message, or_second, provider_next, records,
    reply_kind, reply_property, served, walk_keeps_to_the_lineage,
    wait_result, window_in_focus, Heard, LinuxPasteWaitOutcome, LinuxProviderEvent,
    LineageWalk, LinuxProviderInput, LinuxProviderState, OfferStep, ReplyKind, SelectionAtoms, SelectionRequest,
    ServeEvent, ServePhase, WindowIdentity,
};
use vstd::prelude::*;

verus! {

/// An offer goes its way: arming it makes it wait for the target, and the target
/// asking then confirms it.
pub proof fn offer_goes_its_way()
    ensures
        provider_next(LinuxProviderState::Publishing, LinuxProviderInput::ArmPaste)
            == LinuxProviderState::AwaitingConsumer,
        provider_next(
            LinuxProviderState::AwaitingConsumer,
            LinuxProviderInput::TextRequested { intended_consumer: true },
        ) == LinuxProviderState::Confirmed,
{
}

/// What asks before the paste is armed does not count, an offer is armed only once, and
/// one that was lost or failed does not come back.
pub proof fn offer_does_not_skip_steps(state: LinuxProviderState, intended_consumer: bool)
    ensures
        provider_next(
            LinuxProviderState::Publishing,
            LinuxProviderInput::TextRequested { intended_consumer },
        ) == LinuxProviderState::Publishing,
        !(state is Publishing) ==> provider_next(state, LinuxProviderInput::ArmPaste) == state,
        state is OwnershipLost || state is Failed ==> provider_next(
            state,
            LinuxProviderInput::TextRequested { intended_consumer },
        ) == state,
{
}

/// The atoms stand for different forms.
pub open spec fn told_apart(atoms: SelectionAtoms) -> bool {
    &&& atoms.targets != atoms.password_hint
    &&& atoms.targets != atoms.utf8_string && atoms.targets != atoms.utf8_mime_0
    &&& atoms.targets != atoms.utf8_mime_1 && atoms.targets != atoms.text
    &&& atoms.password_hint != atoms.utf8_string && atoms.password_hint != atoms.utf8_mime_0
    &&& atoms.password_hint != atoms.utf8_mime_1 && atoms.password_hint != atoms.text
}

/// Each form gets what it is asked for: the list of forms, the hint, the text in every
/// form of text, and nothing else.
pub proof fn forms_get_what_they_ask_for(atoms: SelectionAtoms, target: u32)
    requires
        told_apart(atoms),
    ensures
        reply_kind(atoms, atoms.targets) == Some(ReplyKind::Targets),
        reply_kind(atoms, atoms.password_hint) == Some(ReplyKind::Hint),
        reply_kind(atoms, atoms.utf8_string) == Some(ReplyKind::Text),
        reply_kind(atoms, atoms.utf8_mime_0) == Some(ReplyKind::Text),
        reply_kind(atoms, atoms.utf8_mime_1) == Some(ReplyKind::Text),
        reply_kind(atoms, atoms.text) == Some(ReplyKind::Text),
        reply_kind(atoms, target) is Some <==> atoms.offered().contains(target),
{
    let list = atoms.offered();
    assert(list[0] == atoms.targets && list[1] == atoms.utf8_string && list[2] == atoms.utf8_mime_0
        && list[3] == atoms.utf8_mime_1 && list[4] == atoms.text && list[5]
        == atoms.password_hint);
}

/// The list of forms names each of them.
pub proof fn list_names_every_form(atoms: SelectionAtoms)
    ensures
        atoms.offered().contains(atoms.targets),
        atoms.offered().contains(atoms.utf8_string),
        atoms.offered().contains(atoms.utf8_mime_0),
        atoms.offered().contains(atoms.utf8_mime_1),
        atoms.offered().contains(atoms.text),
        atoms.offered().contains(atoms.password_hint),
        atoms.offered().len() == 6,
{
    let list = atoms.offered();
    assert(list[0] == atoms.targets && list[1] == atoms.utf8_string && list[2] == atoms.utf8_mime_0
        && list[3] == atoms.utf8_mime_1 && list[4] == atoms.text && list[5]
        == atoms.password_hint);
}

/// An answer goes where the request says, and to the property of the form's own name
/// where it does not say.
pub proof fn answer_goes_where_asked(request: SelectionRequest)
    ensures
        request.property != 0 ==> reply_property(request) == request.property,
        request.property == 0 ==> reply_property(request) == request.target,
{
}

/// A request for a form that is offered is answered in that form and told so; a request
/// for another form, or an answer that could not be written, is told that there is
/// none. The window that asked is the one that is told.
pub proof fn every_request_is_answered(
    window: u32,
    atoms: SelectionAtoms,
    state: LinuxProviderState,
    request: SelectionRequest,
    ok: bool,
)
    requires
        told_apart(atoms),
    ensures
        ({
            let (after, write) = served(
                window,
                atoms,
                state,
                ServePhase::Listen,
                ServeEvent::SelectionRequest { owner: window, request },
            );
            let (end, notify) = served(
                window,
                atoms,
                after,
                write,
                ServeEvent::Written { ok },
            );
            let property = if request.property != 0 {
                request.property
            } else {
                request.target
            };
            if atoms.offered().contains(request.target) {
                &&& after == state && end == state
                &&& write matches ServePhase::Write { request: r, property: p, kind } && r
                    == request && p == property && Some(kind) == reply_kind(atoms, request.target)
                &&& notify matches ServePhase::Notify { request: r, property: p, delivered } && r
                    == request && p == (if ok {
                    property
                } else {
                    0
                }) && delivered == (ok && request.target != atoms.targets && request.target
                    != atoms.password_hint)
            } else {
                after == state && write == (ServePhase::Notify {
                    request,
                    property: 0,
                    delivered: false,
                })
            }
        }),
{
    forms_get_what_they_ask_for(atoms, request.target);
}

/// A window that got the text is looked at until delivery is confirmed, and one that
/// could not be told makes the provider fail.
pub proof fn receiver_is_looked_at(
    window: u32,
    atoms: SelectionAtoms,
    state: LinuxProviderState,
    request: SelectionRequest,
    property: u32,
    delivered: bool,
)
    ensures
        served(
            window,
            atoms,
            state,
            ServePhase::Notify { request, property, delivered },
            ServeEvent::Notified { ok: true },
        ) == (
            state,
            if delivered && state != LinuxProviderState::Confirmed {
                ServePhase::Check { requestor: request.requestor }
            } else {
                ServePhase::Listen
            },
        ),
        served(
            window,
            atoms,
            state,
            ServePhase::Notify { request, property, delivered },
            ServeEvent::Notified { ok: false },
        ) == (state, ServePhase::Fail),
{
}

/// The target that got the text while it was awaited confirms delivery, and that is
/// announced while the offer goes on; anyone else changes nothing.
pub proof fn target_confirms_delivery(
    window: u32,
    atoms: SelectionAtoms,
    state: LinuxProviderState,
    requestor: u32,
    intended_consumer: bool,
)
    requires
        state != LinuxProviderState::Confirmed,
    ensures
        ({
            let step = served(
                window,
                atoms,
                state,
                ServePhase::Check { requestor },
                ServeEvent::Checked { intended_consumer },
            );
            if intended_consumer && state == LinuxProviderState::AwaitingConsumer {
                step == (
                    LinuxProviderState::Confirmed,
                    ServePhase::Announce {
                        event: LinuxProviderEvent::DeliveryConfirmed,
                        last: false,
                    },
                )
            } else {
                step == (state, ServePhase::Listen)
            }
        }),
{
}

/// While the text is published, the provider arms itself when it is told to, and rests
/// when not.
pub proof fn arming_waits_for_its_turn(window: u32, atoms: SelectionAtoms)
    ensures
        served(
            window,
            atoms,
            LinuxProviderState::Publishing,
            ServePhase::Listen,
            ServeEvent::Quiet { armed: true },
        ) == (
            LinuxProviderState::AwaitingConsumer,
            ServePhase::Announce { event: LinuxProviderEvent::PasteArmed, last: false },
        ),
        served(
            window,
            atoms,
            LinuxProviderState::Publishing,
            ServePhase::Listen,
            ServeEvent::Quiet { armed: false },
        ) == (LinuxProviderState::Publishing, ServePhase::Pause),
{
}

/// Losing the clipboard stops the provider, and is announced where the target had not
/// taken the text.
pub proof fn lost_clipboard_stops_the_provider(
    window: u32,
    atoms: SelectionAtoms,
    state: LinuxProviderState,
)
    ensures
        ({
            let step = served(
                window,
                atoms,
                state,
                ServePhase::Listen,
                ServeEvent::SelectionClear { owner: window },
            );
            if state == LinuxProviderState::Confirmed {
                step == (state, ServePhase::Stop)
            } else {
                step == (
                    LinuxProviderState::OwnershipLost,
                    ServePhase::Announce { event: LinuxProviderEvent::OwnershipLost, last: true },
                )
            }
        }),
{
}

/// After an announcement the provider stops where it was the last, and listens on
/// else; a rest and what does not matter lead back to listening; and a broken
/// connection is a failure.
pub proof fn provider_listens_on(
    window: u32,
    atoms: SelectionAtoms,
    state: LinuxProviderState,
    event: LinuxProviderEvent,
    last: bool,
)
    ensures
        served(
            window,
            atoms,
            state,
            ServePhase::Announce { event, last },
            ServeEvent::Announced,
        ) == (
            state,
            if last {
                ServePhase::Stop
            } else {
                ServePhase::Listen
            },
        ),
        served(window, atoms, state, ServePhase::Pause, ServeEvent::Rested) == (
            state,
            ServePhase::Listen,
        ),
        served(window, atoms, state, ServePhase::Listen, ServeEvent::Unrelated) == (
            state,
            ServePhase::Listen,
        ),
        served(window, atoms, state, ServePhase::Listen, ServeEvent::Broken) == (
            state,
            ServePhase::Fail,
        ),
{
}

/// Waiting ends as the provider tells: well only when it told what was waited for, in
/// loss where the clipboard was lost, in time where nothing came, and else in failure.
pub proof fn waiting_ends_as_told(heard: Heard)
    ensures
        wait_result(heard) is Confirmed <==> heard == Heard::Event(
            LinuxProviderEvent::DeliveryConfirmed,
        ),
        wait_result(heard) is OwnershipLost <==> heard == Heard::Event(
            LinuxProviderEvent::OwnershipLost,
        ),
        wait_result(heard) is TimedOut <==> heard is Timeout,
        arm_result(heard) is Ok <==> heard == Heard::Event(LinuxProviderEvent::PasteArmed),
        arm_result(heard) == Err::<(), LinuxPasteWaitOutcome>(LinuxPasteWaitOutcome::OwnershipLost)
            <==> heard == Heard::Event(LinuxProviderEvent::OwnershipLost),
        arm_result(heard) == Err::<(), LinuxPasteWaitOutcome>(LinuxPasteWaitOutcome::TimedOut)
            <==> heard is Timeout,
        arm_result(heard) != Err::<(), LinuxPasteWaitOutcome>(LinuxPasteWaitOutcome::Confirmed),
{
}

/// What was learnt first of a window's program stays, and what is learnt later fills
/// what was open.
pub proof fn first_answer_stays(first: Option<u32>, second: Option<u32>)
    ensures
        first is Some ==> or_second(first, second) == first,
        first is None ==> or_second(first, second) == second,
{
}

/// Each step of the way up sees one window more, keeps to the way that the parents
/// give, learns what was not known of the program before, and forgets nothing.
pub proof fn step_up_keeps_to_the_way(
    before: LineageWalk,
    leader: Option<u32>,
    pid: Option<u32>,
    parents: Map<u32, u32>,
    after: LineageWalk,
)
    requires
        before.pending(),
        records(
            before,
            leader,
            pid,
            if parents.contains_key(before.current) {
                Some(parents[before.current])
            } else {
                None
            },
            after,
        ),
    ensures
        after.whole_lineage(parents) == before.whole_lineage(parents),
        after.identity.lineage@.len() == before.identity.lineage@.len() + 1,
        after.identity.lineage@.last() == before.current,
        before.identity.leader is Some ==> after.identity.leader == before.identity.leader,
        before.identity.leader is None ==> after.identity.leader == leader,
        before.identity.pid is Some ==> after.identity.pid == before.identity.pid,
        before.identity.pid is None ==> after.identity.pid == pid,
{
    walk_keeps_to_the_lineage(before, after, parents);
}

/// A step that fails is told by its own words, with the reason behind them.
pub proof fn failed_step_is_told(step: OfferStep, error: Seq<char>)
    ensures
        offer_message(step, error) == (match step {
            OfferStep::Connect => "Failed to connect to X11: "@,
            OfferStep::InternAtoms => "Failed to intern X11 clipboard atoms: "@,
            OfferStep::ResolveAtoms => "Failed to resolve X11 clipboard atoms: "@,
            OfferStep::AllocateWindow => "Failed to allocate X11 clipboard window: "@,
            OfferStep::CreateWindow => "Failed to create X11 clipboard window: "@,
            OfferStep::OwnClipboard => "Failed to own the X11 clipboard: "@,
            OfferStep::Publish => "Failed to publish the X11 clipboard: "@,
            OfferStep::VerifyOwnership => "Failed to verify X11 clipboard ownership: "@,
        }) + error,
{
}

/// A window is looked at while fewer than thirty-two were, and it is neither the root
/// nor none.
pub proof fn walk_looks_at_windows(walk: LineageWalk)
    ensures
        walk.pending() <==> !walk.over && walk.identity.lineage@.len() < 32 && walk.current != 0
            && walk.current != walk.root,
{
}

/// A window with the input focus is taken before the active one, and the values that
/// name no window are passed over.
pub proof fn input_focus_comes_first(window: u32, active: Option<u32>)
    ensures
        window > 1 ==> window_in_focus(Some(window), active) == Some(window),
        window <= 1 ==> window_in_focus(Some(window), active) == active,
        window_in_focus(None, active) == active,
{
}

/// The window of `way` after the one at `i` is its parent.
pub open spec fn steps_up(way: Seq<u32>, parents: Map<u32, u32>, i: int) -> bool {
    parents.contains_key(way[i]) && parents[way[i]] == way[i + 1] && way[i] != way[i + 1]
}

/// The way up from a window starts with it, goes from each window to its parent, never
/// holds the root or the value for none, and is no longer than allowed. It ends only
/// where there is no way further up.
pub proof fn lineage_goes_from_parent_to_parent(
    window: u32,
    root: u32,
    parents: Map<u32, u32>,
    levels: nat,
)
    ensures
        ({
            let way = climbed(window, root, parents, levels);
            &&& way.len() <= levels
            &&& way.len() > 0 <==> levels > 0 && window != 0 && window != root
            &&& way.len() > 0 ==> way[0] == window
            &&& forall|i: int| 0 <= i < way.len() ==> #[trigger] way[i] != 0 && way[i] != root
            &&& forall|i: int| 0 <= i < way.len() - 1 ==> #[trigger] steps_up(way, parents, i)
            &&& 0 < way.len() < levels && parents.dom().contains(way.last()) ==> {
                let up = parents[way.last()];
                up == way.last() || up == 0 || up == root
            }
        }),
    decreases levels,
{
    let way = climbed(window, root, parents, levels);
    if levels > 0 && window != 0 && window != root && parents.contains_key(window)
        && parents[window] != window {
        let up = parents[window];
        let rest = climbed(up, root, parents, (levels - 1) as nat);
        lineage_goes_from_parent_to_parent(up, root, parents, (levels - 1) as nat);
        assert(way =~= seq![window] + rest);
        assert forall|i: int| 0 <= i < way.len() implies #[trigger] way[i] != 0 && way[i]
            != root by {
            if i > 0 {
                assert(way[i] == rest[i - 1]);
            }
        }
        assert forall|i: int| 0 <= i < way.len() - 1 implies #[trigger] steps_up(
            way,
            parents,
            i,
        ) by {
            assert(way[i + 1] == rest[i]);
            if i > 0 {
                assert(way[i] == rest[i - 1]);
                assert(steps_up(rest, parents, i - 1));
            }
        }
        if rest.len() > 0 {
            assert(way.last() == rest.last());
        } else {
            assert(way.last() == window);
        }
    } else if way.len() > 0 {
        assert(way =~= seq![window]);
        assert(way.last() == window);
    }
}

/// Windows belong together by any one thing that they share: an ancestor, a leader or
/// a process. What is not known of either is not shared.
pub proof fn sharing_is_belonging(a: WindowIdentity, b: WindowIdentity, shared: u32)
    ensures
        a.lineage@.contains(shared) && b.lineage@.contains(shared) ==> belong_together(a, b),
        a.leader == Some(shared) && b.leader == Some(shared) ==> belong_together(a, b),
        a.pid == Some(shared) && b.pid == Some(shared) ==> belong_together(a, b),
        belong_together(a, b) ==> (exists|w: u32|
            #![trigger a.lineage@.contains(w)]
            a.lineage@.contains(w) && b.lineage@.contains(w)) || (a.leader is Some && a.leader
            == b.leader) || (a.pid is Some && a.pid == b.pid),
{
    if a.lineage@.contains(shared) && b.lineage@.contains(shared) {
        let i = a.lineage@.index_of(shared);
        assert(a.lineage@[i] == shared);
        assert(b.lineage@.contains(a.lineage@[i]));
    }
    if exists|i: int| 0 <= i < a.lineage@.len() && b.lineage@.contains(#[trigger] a.lineage@[i]) {
        let i = choose|i: int|
            0 <= i < a.lineage@.len() && b.lineage@.contains(#[trigger] a.lineage@[i]);
        assert(a.lineage@.contains(a.lineage@[i]));
    }
}

} // verus!
