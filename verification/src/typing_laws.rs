//! What holds of typing sessions.
use crate::focused_input::FocusedInput;
use crate::keys::{KeyEvent, KeyKind, kind_of};
use crate::typing_monitor::{
    elapsed, in_milliseconds, key_step, observed, refresh_due, refreshed, start_message, submitted,
    suppressed, ticked, typed, KeyStep, MachineAction, SessionState, StartFailure,
};
use vstd::prelude::*;

verus! {

/// The state is one in which `at` is the time of the last input.
pub open spec fn last_key_at(state: SessionState, at: u64) -> bool {
    match state {
        SessionState::Idle => false,
        SessionState::Tracking { last_input_at, .. } => last_input_at == at,
        SessionState::Shown { last_input_at, .. } => last_input_at == at,
        SessionState::Suppressed { last_input_at } => last_input_at == at,
    }
}

/// The state is one in which `target` is typed into.
pub open spec fn typing_into(state: SessionState, target: u64) -> bool {
    match state {
        SessionState::Tracking { target: t, .. } => t == target,
        SessionState::Shown { target: t, .. } => t == target,
        _ => false,
    }
}

/// Every key that leaves a session counts as its last input; so the session lives on
/// for less than five seconds from that key, and no longer, whatever it was before.
pub proof fn every_key_is_input(
    state: SessionState,
    now: u64,
    focus: Option<FocusedInput>,
    threshold: u64,
    later: u64,
)
    ensures
        ({
            let next = typed(state, now, focus, threshold).0;
            &&& next is Idle || last_key_at(next, now)
            &&& later < now + 5_000 ==> ticked(next, later) == (next, MachineAction::Nothing)
            &&& later >= now + 5_000 ==> ticked(next, later).0 is Idle
        }),
{
}

/// Time ends a session exactly when five seconds passed since its last input, takes
/// the pointer off the screen with it, and does nothing else.
pub proof fn only_a_pause_ends_a_session(state: SessionState, at: u64, now: u64)
    requires
        last_key_at(state, at),
    ensures
        now >= at + 5_000 ==> ticked(state, now).0 is Idle,
        now >= at + 5_000 ==> ticked(state, now).1 == (if state is Shown {
            MachineAction::Hide
        } else {
            MachineAction::Nothing
        }),
        now < at + 5_000 ==> ticked(state, now) == (state, MachineAction::Nothing),
{
}

/// Time does nothing while nobody types.
pub proof fn time_starts_nothing(now: u64)
    ensures
        ticked(SessionState::Idle, now) == (SessionState::Idle, MachineAction::Nothing),
{
}

/// Typing makes a session exactly where a field has the focus, and that is the field
/// of the session; suppression lasts wherever the keys go.
pub proof fn session_goes_with_the_focus(
    state: SessionState,
    now: u64,
    focus: Option<FocusedInput>,
    threshold: u64,
)
    ensures
        ({
            let next = typed(state, now, focus, threshold).0;
            if state is Suppressed {
                next is Suppressed
            } else {
                match focus {
                    None => next is Idle,
                    Some(field) => typing_into(next, field.identity),
                }
            }
        }),
{
}

/// What is pointed at is where the focused field stands.
pub proof fn pointer_is_at_the_field(
    state: SessionState,
    now: u64,
    focus: Option<FocusedInput>,
    threshold: u64,
)
    ensures
        ({
            let action = typed(state, now, focus, threshold).1;
            &&& action matches MachineAction::Show(place) ==> focus matches Some(field) && place
                == field.bounds
            &&& action matches MachineAction::Move(place) ==> focus matches Some(field) && place
                == field.bounds
        }),
        ({
            let action = refreshed(state, focus).1;
            action matches MachineAction::Move(place) ==> focus matches Some(field) && place
                == field.bounds
        }),
{
}

/// A key into a field starts a session at that key wherever there is none for the
/// field, or one that paused for five seconds before its hint came up.
pub proof fn session_starts_with_a_key(
    state: SessionState,
    now: u64,
    field: FocusedInput,
    threshold: u64,
)
    requires
        !(state is Suppressed),
        !typing_into(state, field.identity) || (state matches SessionState::Tracking {
            last_input_at,
            ..
        } && now >= last_input_at + 5_000),
    ensures
        typed(state, now, Some(field), threshold).0 == (SessionState::Tracking {
            started_at: now,
            last_input_at: now,
            target: field.identity,
        }),
        typed(state, now, Some(field), threshold).1 == (if state is Shown {
            MachineAction::Hide
        } else {
            MachineAction::Nothing
        }),
{
}

/// A key into the field of a session that did not pause keeps the start of the
/// session, and brings the hint up exactly when the threshold has passed since then.
pub proof fn session_goes_on(
    started_at: u64,
    last_input_at: u64,
    now: u64,
    field: FocusedInput,
    threshold: u64,
)
    requires
        now < last_input_at + 5_000,
        started_at <= now,
    ensures
        ({
            let target = field.identity;
            let state = SessionState::Tracking { started_at, last_input_at, target };
            let (next, action) = typed(state, now, Some(field), threshold);
            if now - started_at >= threshold {
                next is Shown && action == MachineAction::Show(field.bounds)
            } else {
                next == (SessionState::Tracking { started_at, last_input_at: now, target })
                    && action is Nothing
            }
        }),
{
}

/// Keys into the field that is pointed at keep it so, and the pointer follows the
/// field.
pub proof fn shown_field_stays_shown(
    last_input_at: u64,
    now: u64,
    field: FocusedInput,
    threshold: u64,
)
    ensures
        ({
            let state = SessionState::Shown { last_input_at, target: field.identity };
            let (next, action) = typed(state, now, Some(field), threshold);
            next is Shown && typing_into(next, field.identity) && action == MachineAction::Move(
                field.bounds,
            )
        }),
{
}

/// Typing that leaves every field ends the session, and takes the pointer away.
pub proof fn leaving_the_field_ends_the_session(state: SessionState, now: u64, threshold: u64)
    requires
        !(state is Suppressed),
    ensures
        typed(state, now, None, threshold) == (
            SessionState::Idle,
            if state is Shown {
                MachineAction::Hide
            } else {
                MachineAction::Nothing
            },
        ),
{
}

/// A hint that comes up under a threshold comes up under every lower one.
pub proof fn lower_threshold_shows_no_later(
    state: SessionState,
    now: u64,
    focus: Option<FocusedInput>,
    low: u64,
    high: u64,
)
    requires
        low <= high,
        typed(state, now, focus, high).1 is Show,
    ensures
        typed(state, now, focus, low) == typed(state, now, focus, high),
{
}

/// A look at the focus moves the pointer where its field still has the focus, takes
/// it away where not, and changes nothing where nothing is pointed at.
pub proof fn pointer_follows_the_focus(state: SessionState, focus: Option<FocusedInput>)
    ensures
        state matches SessionState::Shown { target, .. } ==> (match focus {
            Some(field) if field.identity == target => refreshed(state, focus) == (
                state,
                MachineAction::Move(field.bounds),
            ),
            _ => refreshed(state, focus) == (SessionState::Idle, MachineAction::Hide),
        }),
        !(state is Shown) ==> refreshed(state, focus) == (state, MachineAction::Nothing),
{
}

/// What keys typed into one field at `times` come to.
pub open spec fn typed_at(times: Seq<u64>, field: FocusedInput, threshold: u64) -> (
    SessionState,
    MachineAction,
)
    decreases times.len(),
{
    if times.len() == 0 {
        (SessionState::Idle, MachineAction::Nothing)
    } else {
        typed(
            typed_at(times.drop_last(), field, threshold).0,
            times.last(),
            Some(field),
            threshold,
        )
    }
}

/// The times never go back, and never pause for five seconds.
pub open spec fn sustained(times: Seq<u64>) -> bool {
    forall|i: int, j: int|
        0 <= i < j < times.len() && j == i + 1 ==> #[trigger] times[i] <= #[trigger] times[j]
            && times[j] < times[i] + 5_000
}

/// Sustained typing was sustained before its last key.
proof fn lemma_sustained_so_far(times: Seq<u64>)
    requires
        times.len() > 0,
        sustained(times),
    ensures
        sustained(times.drop_last()),
{
    let rest = times.drop_last();
    assert forall|i: int, j: int| 0 <= i < j < rest.len() && j == i + 1 implies #[trigger] rest[i]
        <= #[trigger] rest[j] && rest[j] < rest[i] + 5_000 by {
        assert(times[i] <= times[j]);
    }
}

/// The hint is up exactly if typing into one field without a pause has come to a
/// second key and lasted for the threshold since the first; whenever it is not, the
/// session goes on from the first key.
pub proof fn sustained_typing_is_noticed(times: Seq<u64>, field: FocusedInput, threshold: u64)
    requires
        times.len() > 0,
        sustained(times),
    ensures
        times[0] <= times.last(),
        typed_at(times, field, threshold).0 == (if times.len() > 1 && times.last() - times[0]
            >= threshold {
            SessionState::Shown { last_input_at: times.last(), target: field.identity }
        } else {
            SessionState::Tracking {
                started_at: times[0],
                last_input_at: times.last(),
                target: field.identity,
            }
        }),
    decreases times.len(),
{
    let n = times.len() as int;
    if n > 1 {
        let rest = times.drop_last();
        lemma_sustained_so_far(times);
        sustained_typing_is_noticed(rest, field, threshold);
        assert(times[n - 2] <= times[n - 1]);
        assert(rest.last() == times[n - 2]);
    } else {
        assert(typed_at(times.drop_last(), field, threshold).0 is Idle);
    }
}

/// The hint comes up with the first key at which the threshold has passed, and after
/// that the pointer only moves.
pub proof fn hint_comes_up_in_time(times: Seq<u64>, field: FocusedInput, threshold: u64)
    requires
        times.len() > 1,
        sustained(times),
    ensures
        typed_at(times, field, threshold).1 == (if times.last() - times[0] < threshold {
            MachineAction::Nothing
        } else if times.len() > 2 && times[times.len() - 2] - times[0] >= threshold {
            MachineAction::Move(field.bounds)
        } else {
            MachineAction::Show(field.bounds)
        }),
{
    let rest = times.drop_last();
    let n = times.len() as int;
    lemma_sustained_so_far(times);
    sustained_typing_is_noticed(rest, field, threshold);
    sustained_typing_is_noticed(times, field, threshold);
    assert(times[n - 2] <= times[n - 1]);
    assert(rest.last() == times[n - 2]);
}

/// A message that was sent off leaves nothing behind: the next key starts over, and
/// nothing stays on the screen.
pub proof fn sending_off_starts_over(
    state: SessionState,
    now: u64,
    field: FocusedInput,
    threshold: u64,
)
    ensures
        submitted(state).0 is Idle,
        submitted(state).1 is Hide,
        typed(submitted(state).0, now, Some(field), threshold).0 == (SessionState::Tracking {
            started_at: now,
            last_input_at: now,
            target: field.identity,
        }),
{
}

/// Suppressed typing shows nothing until it paused for five seconds, and counts from
/// the start after that.
pub proof fn suppression_lasts_until_a_pause(
    state: SessionState,
    at: u64,
    now: u64,
    focus: Option<FocusedInput>,
    threshold: u64,
)
    ensures
        suppressed(state, at).1 is Hide,
        suppressed(state, at).0 == (SessionState::Suppressed { last_input_at: at }),
        typed(suppressed(state, at).0, now, focus, threshold) == (
            SessionState::Suppressed { last_input_at: now },
            MachineAction::Nothing,
        ),
        now < at + 5_000 ==> ticked(suppressed(state, at).0, now).0 is Suppressed,
        now >= at + 5_000 ==> ticked(suppressed(state, at).0, now).0 is Idle,
{
}

/// Suppression is noticed: at once where it was asked for, all the while input is
/// injected, and not again for one request.
pub proof fn suppression_is_noticed(
    state: SessionState,
    now: u64,
    seen: u64,
    epoch: u64,
    injecting: bool,
    later: u64,
)
    ensures
        ({
            let (next, action) = observed(state, now, seen, epoch, injecting);
            &&& epoch != seen ==> next == (SessionState::Suppressed { last_input_at: now })
                && action is Hide
            &&& injecting ==> next is Suppressed
            &&& epoch == seen && !injecting ==> next == state && action is Nothing
            &&& action is Hide || (next == state && action is Nothing)
            &&& observed(next, later, epoch, epoch, injecting) == (next, MachineAction::Nothing)
        }),
{
}

/// Only a key that goes down, was not down before and is not injected does anything:
/// one that changes the text asks for the focused field, one that sends it off ends
/// the session, and any other does nothing.
pub proof fn only_fresh_keys_count(
    state: SessionState,
    event: KeyEvent,
    held: bool,
    injecting: bool,
    macos: bool,
)
    ensures
        ({
            let (next, step) = key_step(state, event, held, injecting, macos);
            let fresh = event.is_key_down && !held && !injecting;
            match event.key {
                Some(key) if fresh => match kind_of(key, event.modifiers, macos) {
                    KeyKind::Typing => step is LookUpFocus && next == state,
                    KeyKind::Submit => step == KeyStep::Act(MachineAction::Hide) && next is Idle,
                    KeyKind::Other => step == KeyStep::Act(MachineAction::Nothing) && next == state,
                },
                _ => step == KeyStep::Act(MachineAction::Nothing) && next == state,
            }
        }),
{
}

/// The focus is looked up while a field is pointed at, a quarter of a second after the
/// last time, and never sooner.
pub proof fn focus_is_looked_up_in_time(state: SessionState, now: u64, last: u64)
    ensures
        refresh_due(state, now, last) <==> state is Shown && now >= last + 250,
{
}

/// A monitor that cannot start says what it lacks, and why.
pub proof fn failed_start_is_told(error: Seq<char>)
    ensures
        start_message(StartFailure::Listener, error) == "Unable to monitor global typing: "@
            + error,
        start_message(StartFailure::Thread, error) == "Unable to start the typing monitor thread: "@
            + error,
{
}

/// Between two times there is what the later is ahead by, and nothing where the clock
/// went back.
pub proof fn time_does_not_run_back(earlier: u64, later: u64)
    ensures
        later <= earlier ==> elapsed(later, earlier) == 0,
        earlier <= later ==> earlier + elapsed(later, earlier) == later,
{
}

/// A threshold in seconds counts a thousand milliseconds each.
pub proof fn seconds_are_thousands(seconds: u64)
    ensures
        in_milliseconds(seconds) == 1_000 * seconds,
{
}

} // verus!
