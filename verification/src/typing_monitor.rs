//! Detection of manual typing sessions.
//!
//! Only kinds of keys, times, the identity of the focused field and its place on the
//! screen come in; what is typed never does.
use crate::focused_input::{FocusedInput, ScreenRect};
use crate::keys::{
    classify_key, held_after, kind_of, update_pressed_keys, Key, KeyEvent, KeyKind, PressedKeys,
};
use crate::text::strings::prefixed;
use vstd::prelude::*;
use vstd::std_specs::cmp::PartialEqSpecImpl;

verus! {

/// How long to wait for a key event, in milliseconds.
pub const POLL_INTERVAL_MS: u64 = 100;

/// How often the place of the field is looked up again while it is pointed at, in
/// milliseconds.
pub const FOCUS_REFRESH_INTERVAL_MS: u64 = 250;

/// How long a session lasts without input, in milliseconds.
pub const IDLE_TIMEOUT_MS: u64 = 5_000;

/// Where a typing session stands. Times are in milliseconds.
#[derive(Debug, Clone, Copy, PartialEq, Eq, Structural)]
pub enum SessionState {
    /// Nobody types.
    Idle,
    /// Somebody types into `target` since `started_at`.
    Tracking { started_at: u64, last_input_at: u64, target: u64 },
    /// Somebody typed long enough; `target` is pointed at.
    Shown { last_input_at: u64, target: u64 },
    /// Typing does not count until it pauses.
    Suppressed { last_input_at: u64 },
}

/// What is to be done on the screen. Two actions are equal if they are of one kind
/// and their rectangles are equal.
#[derive(Debug, Clone, Copy)]
pub enum MachineAction {
    /// Leave the screen as it is.
    Nothing,
    /// Show the hint and point at the field.
    Show(ScreenRect),
    /// Point at the field at its new place.
    Move(ScreenRect),
    /// Take everything off the screen.
    Hide,
}

impl PartialEq for MachineAction {
    fn eq(&self, other: &Self) -> (r: bool) {
        match (*self, *other) {
            (MachineAction::Nothing, MachineAction::Nothing) => true,
            (MachineAction::Show(a), MachineAction::Show(b)) => a == b,
            (MachineAction::Move(a), MachineAction::Move(b)) => a == b,
            (MachineAction::Hide, MachineAction::Hide) => true,
            _ => false,
        }
    }
}

impl PartialEqSpecImpl for MachineAction {
    open spec fn obeys_eq_spec() -> bool {
        true
    }

    open spec fn eq_spec(&self, other: &Self) -> bool {
        match (*self, *other) {
            (MachineAction::Nothing, MachineAction::Nothing) => true,
            (MachineAction::Show(a), MachineAction::Show(b)) => a.same(b),
            (MachineAction::Move(a), MachineAction::Move(b)) => a.same(b),
            (MachineAction::Hide, MachineAction::Hide) => true,
            _ => false,
        }
    }
}

/// A typing session.
#[derive(Debug)]
pub struct SessionMachine {
    pub state: SessionState,
}

/// The time from `earlier` to `later`, none if that is in the past.
pub open spec fn elapsed(later: u64, earlier: u64) -> int {
    if later >= earlier {
        later - earlier
    } else {
        0
    }
}

/// A session that starts with a key at `now` in `target`.
pub open spec fn started(now: u64, target: u64) -> SessionState {
    SessionState::Tracking { started_at: now, last_input_at: now, target }
}

/// What typing a key at `now` into `focus` does. A field is pointed at when typing
/// into it has lasted for `threshold` without a pause; typing elsewhere starts over.
pub open spec fn typed(
    state: SessionState,
    now: u64,
    focus: Option<FocusedInput>,
    threshold: u64,
) -> (SessionState, MachineAction) {
    match (state, focus) {
        (SessionState::Suppressed { .. }, _) => (
            SessionState::Suppressed { last_input_at: now },
            MachineAction::Nothing,
        ),
        (SessionState::Shown { .. }, None) => (SessionState::Idle, MachineAction::Hide),
        (_, None) => (SessionState::Idle, MachineAction::Nothing),
        (SessionState::Idle, Some(field)) => (started(now, field.identity), MachineAction::Nothing),
        (SessionState::Tracking { started_at, last_input_at, target }, Some(field)) => if target
            != field.identity || elapsed(now, last_input_at) >= IDLE_TIMEOUT_MS {
            (started(now, field.identity), MachineAction::Nothing)
        } else if elapsed(now, started_at) >= threshold {
            (
                SessionState::Shown { last_input_at: now, target },
                MachineAction::Show(field.bounds),
            )
        } else {
            (
                SessionState::Tracking { started_at, last_input_at: now, target },
                MachineAction::Nothing,
            )
        },
        (SessionState::Shown { target, .. }, Some(field)) => if target == field.identity {
            (
                SessionState::Shown { last_input_at: now, target },
                MachineAction::Move(field.bounds),
            )
        } else {
            (started(now, field.identity), MachineAction::Hide)
        },
    }
}

/// The time of the last input, if there is a session.
pub open spec fn last_input(state: SessionState) -> Option<u64> {
    match state {
        SessionState::Idle => None,
        SessionState::Tracking { last_input_at, .. } => Some(last_input_at),
        SessionState::Shown { last_input_at, .. } => Some(last_input_at),
        SessionState::Suppressed { last_input_at } => Some(last_input_at),
    }
}

/// What the passing of time does: a session without input for long enough is over.
pub open spec fn ticked(state: SessionState, now: u64) -> (SessionState, MachineAction) {
    if last_input(state) is None || elapsed(now, last_input(state)->0) < IDLE_TIMEOUT_MS {
        (state, MachineAction::Nothing)
    } else if state is Shown {
        (SessionState::Idle, MachineAction::Hide)
    } else {
        (SessionState::Idle, MachineAction::Nothing)
    }
}

/// What a look at the focused field does while one is pointed at: the pointer follows
/// the field, and goes when the focus is elsewhere.
pub open spec fn refreshed(state: SessionState, focus: Option<FocusedInput>) -> (
    SessionState,
    MachineAction,
) {
    match state {
        SessionState::Shown { target, .. } => match focus {
            Some(field) if field.identity == target => (state, MachineAction::Move(field.bounds)),
            _ => (SessionState::Idle, MachineAction::Hide),
        },
        _ => (state, MachineAction::Nothing),
    }
}

/// What sending the message off does.
pub open spec fn submitted(state: SessionState) -> (SessionState, MachineAction) {
    (SessionState::Idle, MachineAction::Hide)
}

/// What a request to stop typing from counting does.
pub open spec fn suppressed(state: SessionState, now: u64) -> (SessionState, MachineAction) {
    (SessionState::Suppressed { last_input_at: now }, MachineAction::Hide)
}

/// What a look at the requests for suppression does, where `seen` of them were noticed
/// before and there are `epoch` by now.
pub open spec fn observed(
    state: SessionState,
    now: u64,
    seen: u64,
    epoch: u64,
    injecting: bool,
) -> (SessionState, MachineAction) {
    if epoch != seen || (injecting && !(state is Suppressed)) {
        suppressed(state, now)
    } else {
        (state, MachineAction::Nothing)
    }
}

/// What a key event does, where `held` says whether its key was down before.
pub open spec fn key_step(
    state: SessionState,
    event: KeyEvent,
    held: bool,
    injecting: bool,
    macos: bool,
) -> (SessionState, KeyStep) {
    if event.key is None || !event.is_key_down || held || injecting {
        (state, KeyStep::Act(MachineAction::Nothing))
    } else {
        match kind_of(event.key->0, event.modifiers, macos) {
            KeyKind::Submit => (submitted(state).0, KeyStep::Act(submitted(state).1)),
            KeyKind::Typing => (state, KeyStep::LookUpFocus),
            KeyKind::Other => (state, KeyStep::Act(MachineAction::Nothing)),
        }
    }
}

/// The focused field is to be looked up again, where that was last done at `last`.
pub open spec fn refresh_due(state: SessionState, now: u64, last: u64) -> bool {
    state is Shown && elapsed(now, last) >= FOCUS_REFRESH_INTERVAL_MS
}

/// A number of seconds in milliseconds.
pub open spec fn in_milliseconds(seconds: u64) -> int {
    seconds * 1_000
}

impl Default for SessionMachine {
    fn default() -> (r: Self)
        ensures
            r.state == SessionState::Idle,
    {
        SessionMachine { state: SessionState::Idle }
    }
}

impl SessionMachine {
    /// Takes note of a key typed at `now_ms` into `focus`.
    pub fn on_typing(
        &mut self,
        now_ms: u64,
        focus: Option<FocusedInput>,
        threshold_ms: u64,
    ) -> (r: MachineAction)
        ensures
            (final(self).state, r) == typed(old(self).state, now_ms, focus, threshold_ms),
    {
        if let SessionState::Suppressed { .. } = self.state {
            self.state = SessionState::Suppressed { last_input_at: now_ms };
            return MachineAction::Nothing;
        }
        let field: FocusedInput = match focus {
            Some(field) => field,
            None => {
                let was_shown: bool = self.is_shown();
                self.state = SessionState::Idle;
                return if was_shown {
                    MachineAction::Hide
                } else {
                    MachineAction::Nothing
                };
            },
        };
        match self.state {
            SessionState::Idle => {
                self.state =
                SessionState::Tracking {
                    started_at: now_ms,
                    last_input_at: now_ms,
                    target: field.identity,
                };
                MachineAction::Nothing
            },
            SessionState::Tracking { started_at, last_input_at, target } => {
                if target != field.identity || now_ms.saturating_sub(last_input_at)
                    >= IDLE_TIMEOUT_MS {
                    self.state =
                    SessionState::Tracking {
                        started_at: now_ms,
                        last_input_at: now_ms,
                        target: field.identity,
                    };
                    return MachineAction::Nothing;
                }
                if now_ms.saturating_sub(started_at) >= threshold_ms {
                    self.state = SessionState::Shown { last_input_at: now_ms, target };
                    MachineAction::Show(field.bounds)
                } else {
                    self.state =
                    SessionState::Tracking { started_at, last_input_at: now_ms, target };
                    MachineAction::Nothing
                }
            },
            SessionState::Shown { target, .. } => {
                if target == field.identity {
                    self.state = SessionState::Shown { last_input_at: now_ms, target };
                    MachineAction::Move(field.bounds)
                } else {
                    self.state =
                    SessionState::Tracking {
                        started_at: now_ms,
                        last_input_at: now_ms,
                        target: field.identity,
                    };
                    MachineAction::Hide
                }
            },
            SessionState::Suppressed { .. } => MachineAction::Nothing,
        }
    }

    /// Takes note that the message was sent: it is over, and the next key may start
    /// another right away.
    pub fn submit(&mut self) -> (r: MachineAction)
        ensures
            final(self).state == SessionState::Idle,
            r == MachineAction::Hide,
            (final(self).state, r) == submitted(old(self).state),
    {
        self.state = SessionState::Idle;
        MachineAction::Hide
    }

    /// Stops typing from counting until it pauses.
    pub fn suppress(&mut self, now_ms: u64) -> (r: MachineAction)
        ensures
            final(self).state == (SessionState::Suppressed { last_input_at: now_ms }),
            r == MachineAction::Hide,
            (final(self).state, r) == suppressed(old(self).state, now_ms),
    {
        self.state = SessionState::Suppressed { last_input_at: now_ms };
        MachineAction::Hide
    }

    /// Takes note of the time.
    pub fn tick(&mut self, now_ms: u64) -> (r: MachineAction)
        ensures
            (final(self).state, r) == ticked(old(self).state, now_ms),
    {
        let last_input_at: u64 = match self.state {
            SessionState::Idle => {
                return MachineAction::Nothing;
            },
            SessionState::Tracking { last_input_at, .. } => last_input_at,
            SessionState::Shown { last_input_at, .. } => last_input_at,
            SessionState::Suppressed { last_input_at } => last_input_at,
        };
        if now_ms.saturating_sub(last_input_at) < IDLE_TIMEOUT_MS {
            return MachineAction::Nothing;
        }
        let was_shown: bool = self.is_shown();
        self.state = SessionState::Idle;
        if was_shown {
            MachineAction::Hide
        } else {
            MachineAction::Nothing
        }
    }

    /// Takes note of the field that has the focus.
    pub fn refresh_focus(&mut self, focus: Option<FocusedInput>) -> (r: MachineAction)
        ensures
            (final(self).state, r) == refreshed(old(self).state, focus),
    {
        let target: u64 = match self.state {
            SessionState::Shown { target, .. } => target,
            _ => {
                return MachineAction::Nothing;
            },
        };
        match focus {
            Some(field) if field.identity == target => MachineAction::Move(field.bounds),
            _ => {
                self.state = SessionState::Idle;
                MachineAction::Hide
            },
        }
    }

    /// Whether a field is pointed at.
    pub fn is_shown(&self) -> (r: bool)
        ensures
            r == self.state is Shown,
    {
        matches!(self.state, SessionState::Shown { .. })
    }

    /// Whether typing does not count.
    pub fn is_suppressed(&self) -> (r: bool)
        ensures
            r == self.state is Suppressed,
    {
        matches!(self.state, SessionState::Suppressed { .. })
    }
}

/// Whether something is on the screen after an action, where `visible` says whether
/// something was before.
pub open spec fn visible_after(visible: bool, action: MachineAction) -> bool {
    match action {
        MachineAction::Nothing => visible,
        MachineAction::Show(_) => true,
        MachineAction::Move(_) => true,
        MachineAction::Hide => false,
    }
}

/// Something is on the screen exactly while the session is shown, whatever happens.
pub proof fn screen_follows_the_session(
    state: SessionState,
    now: u64,
    focus: Option<FocusedInput>,
    threshold: u64,
)
    ensures
        ({
            let (next, action) = typed(state, now, focus, threshold);
            visible_after(state is Shown, action) == next is Shown
        }),
        ({
            let (next, action) = ticked(state, now);
            visible_after(state is Shown, action) == next is Shown
        }),
        ({
            let (next, action) = refreshed(state, focus);
            visible_after(state is Shown, action) == next is Shown
        }),
{
}

/// The hint is shown only by a key typed into the same field as before, after typing
/// into it for the threshold and with no pause of the idle time before it.
pub proof fn show_takes_sustained_typing(
    state: SessionState,
    now: u64,
    focus: Option<FocusedInput>,
    threshold: u64,
)
    requires
        typed(state, now, focus, threshold).1 is Show,
    ensures
        state matches SessionState::Tracking { started_at, last_input_at, target } && focus
            matches Some(field) && field.identity == target && elapsed(now, started_at) >= threshold
            && elapsed(now, last_input_at) < IDLE_TIMEOUT_MS && typed(
            state,
            now,
            focus,
            threshold,
        ).1 == MachineAction::Show(field.bounds),
{
}

/// While a field is pointed at, the hint is not shown again.
pub proof fn hint_is_shown_once(
    state: SessionState,
    now: u64,
    focus: Option<FocusedInput>,
    threshold: u64,
)
    requires
        state is Shown,
    ensures
        !(typed(state, now, focus, threshold).1 is Show),
{
}

/// Neither the passing of time nor a look at the focus shows the hint.
pub proof fn only_typing_shows_the_hint(state: SessionState, now: u64, focus: Option<FocusedInput>)
    ensures
        !(ticked(state, now).1 is Show),
        !(refreshed(state, focus).1 is Show),
{
}

/// While typing is suppressed nothing comes on the screen, and typing keeps it
/// suppressed.
pub proof fn suppressed_typing_shows_nothing(
    state: SessionState,
    now: u64,
    focus: Option<FocusedInput>,
    threshold: u64,
)
    requires
        state is Suppressed,
    ensures
        typed(state, now, focus, threshold).1 is Nothing,
        typed(state, now, focus, threshold).0 is Suppressed,
        refreshed(state, focus) == (state, MachineAction::Nothing),
        ticked(state, now).1 is Nothing,
{
}

/// A session without input for the idle time is over at the next look at the clock.
pub proof fn idle_session_ends(state: SessionState, now: u64)
    requires
        last_input(state) is None || elapsed(now, last_input(state)->0) >= IDLE_TIMEOUT_MS,
    ensures
        ticked(state, now).0 == SessionState::Idle,
{
}

/// After a message was sent, typing starts a session of its own, however soon: two
/// keys into one field, apart by the threshold but less than the idle time, show the
/// hint.
pub proof fn next_message_starts_fresh(
    first: u64,
    second: u64,
    field: FocusedInput,
    threshold: u64,
)
    requires
        first <= second,
        threshold <= second - first < IDLE_TIMEOUT_MS,
    ensures
        typed(SessionState::Idle, first, Some(field), threshold) == (
            started(first, field.identity),
            MachineAction::Nothing,
        ),
        typed(started(first, field.identity), second, Some(field), threshold).1
            == MachineAction::Show(field.bounds),
{
}

/// Typing into another field takes the pointer away and starts over there.
pub proof fn other_field_starts_over(
    state: SessionState,
    now: u64,
    field: FocusedInput,
    threshold: u64,
)
    requires
        state matches SessionState::Shown { target, .. } && target != field.identity,
    ensures
        typed(state, now, Some(field), threshold) == (
            started(now, field.identity),
            MachineAction::Hide,
        ),
{
}

/// What a key event asks for.
#[derive(Debug, Clone, Copy, PartialEq)]
pub enum KeyStep {
    /// Do this.
    Act(MachineAction),
    /// Look up the focused field, and hand it to [`Monitor::typed_into`].
    LookUpFocus,
}

/// The monitor: a session, the keys that are held, how often suppression was asked
/// for as far as was noticed, and when the focus was last looked at.
pub struct Monitor {
    pub machine: SessionMachine,
    pub pressed: PressedKeys,
    pub observed_suppression_epoch: u64,
    pub last_focus_refresh_ms: u64,
}

impl Monitor {
    /// No key is held twice.
    pub open spec fn well_formed(self) -> bool {
        self.pressed.well_formed()
    }

    /// A monitor that starts when suppression was asked for `epoch` times.
    pub fn new(epoch: u64) -> (r: Monitor)
        ensures
            r.well_formed(),
            r.machine.state == SessionState::Idle,
            r.pressed@ == Set::<Key>::empty(),
            r.observed_suppression_epoch == epoch,
            r.last_focus_refresh_ms == 0,
    {
        Monitor {
            machine: SessionMachine { state: SessionState::Idle },
            pressed: PressedKeys::new(),
            observed_suppression_epoch: epoch,
            last_focus_refresh_ms: 0,
        }
    }

    /// Suppresses the session if that was asked for since the last time, or if input
    /// is being injected and the session is not suppressed yet.
    pub fn observe_suppression(&mut self, now_ms: u64, epoch: u64, injecting: bool) -> (r:
        MachineAction)
        ensures
            final(self).pressed == old(self).pressed,
            final(self).last_focus_refresh_ms == old(self).last_focus_refresh_ms,
            final(self).observed_suppression_epoch == epoch,
            injecting ==> final(self).machine.state is Suppressed,
            if epoch != old(self).observed_suppression_epoch || (injecting && !(old(self).machine.state is Suppressed)) {
                &&& final(self).machine.state == (SessionState::Suppressed { last_input_at: now_ms })
                &&& r == MachineAction::Hide
            } else {
                &&& final(self).machine.state == old(self).machine.state
                &&& r == MachineAction::Nothing
            },
            (final(self).machine.state, r) == observed(
                old(self).machine.state,
                now_ms,
                old(self).observed_suppression_epoch,
                epoch,
                injecting,
            ),
    {
        if epoch != self.observed_suppression_epoch || (injecting && !self.machine.is_suppressed()) {
            self.observed_suppression_epoch = epoch;
            self.machine.suppress(now_ms)
        } else {
            MachineAction::Nothing
        }
    }

    /// Takes note of a key event. Only a key that just went down counts, and none
    /// does while input is being injected.
    pub fn on_key(&mut self, event: KeyEvent, injecting: bool, macos: bool) -> (r: KeyStep)
        requires
            old(self).well_formed(),
        ensures
            final(self).well_formed(),
            final(self).observed_suppression_epoch == old(self).observed_suppression_epoch,
            final(self).last_focus_refresh_ms == old(self).last_focus_refresh_ms,
            final(self).pressed@ == (match event.key {
                None => old(self).pressed@,
                Some(key) => if event.is_key_down {
                    old(self).pressed@.insert(key)
                } else {
                    old(self).pressed@.remove(key)
                },
            }),
            match event.key {
                Some(key) if event.is_key_down && !old(self).pressed@.contains(key) && !injecting =>
                match kind_of(key, event.modifiers, macos) {
                    KeyKind::Submit => r == KeyStep::Act(MachineAction::Hide) && final(self).machine.state == SessionState::Idle,
                    KeyKind::Typing => r == KeyStep::LookUpFocus && final(self).machine.state
                        == old(self).machine.state,
                    KeyKind::Other => r == KeyStep::Act(MachineAction::Nothing) && final(self).machine.state == old(self).machine.state,
                },
                _ => r == KeyStep::Act(MachineAction::Nothing) && final(self).machine.state == old(self).machine.state,
            },
            (final(self).machine.state, r) == key_step(
                old(self).machine.state,
                event,
                event.key is Some && old(self).pressed@.contains(event.key->0),
                injecting,
                macos,
            ),
            final(self).pressed@ == held_after(old(self).pressed@, event),
    {
        match update_pressed_keys(&mut self.pressed, event) {
            Some((key, first_keydown)) => {
                if first_keydown && !injecting {
                    match classify_key(key, event.modifiers, macos) {
                        KeyKind::Submit => KeyStep::Act(self.machine.submit()),
                        KeyKind::Typing => KeyStep::LookUpFocus,
                        KeyKind::Other => KeyStep::Act(MachineAction::Nothing),
                    }
                } else {
                    KeyStep::Act(MachineAction::Nothing)
                }
            },
            None => KeyStep::Act(MachineAction::Nothing),
        }
    }

    /// Takes note of a key typed at `now_ms` into `focus`, where typing counts from
    /// `threshold_secs` seconds on.
    pub fn typed_into(&mut self, now_ms: u64, focus: Option<FocusedInput>, threshold_secs: u64) -> (r:
        MachineAction)
        requires
            threshold_secs * 1_000 <= u64::MAX,
        ensures
            final(self).pressed == old(self).pressed,
            final(self).observed_suppression_epoch == old(self).observed_suppression_epoch,
            final(self).last_focus_refresh_ms == old(self).last_focus_refresh_ms,
            (final(self).machine.state, r) == typed(
                old(self).machine.state,
                now_ms,
                focus,
                (threshold_secs * 1_000) as u64,
            ),
            (final(self).machine.state, r) == typed(
                old(self).machine.state,
                now_ms,
                focus,
                in_milliseconds(threshold_secs) as u64,
            ),
    {
        self.machine.on_typing(now_ms, focus, threshold_secs * 1_000)
    }

    /// Takes note of the time; says what to do, and whether to look up the focused
    /// field and hand it to [`Monitor::refresh_focus`].
    pub fn on_time(&mut self, now_ms: u64) -> (r: (MachineAction, bool))
        ensures
            final(self).pressed == old(self).pressed,
            final(self).observed_suppression_epoch == old(self).observed_suppression_epoch,
            (final(self).machine.state, r.0) == ticked(old(self).machine.state, now_ms),
            r.1 == (final(self).machine.state is Shown && elapsed(
                now_ms,
                old(self).last_focus_refresh_ms,
            ) >= FOCUS_REFRESH_INTERVAL_MS),
            final(self).last_focus_refresh_ms == (if r.1 {
                now_ms
            } else {
                old(self).last_focus_refresh_ms
            }),
            r.1 == refresh_due(final(self).machine.state, now_ms, old(self).last_focus_refresh_ms),
    {
        let action: MachineAction = self.machine.tick(now_ms);
        let due: bool = self.machine.is_shown() && now_ms.saturating_sub(self.last_focus_refresh_ms)
            >= FOCUS_REFRESH_INTERVAL_MS;
        if due {
            self.last_focus_refresh_ms = now_ms;
        }
        (action, due)
    }

    /// Takes note of the field that has the focus.
    pub fn refresh_focus(&mut self, focus: Option<FocusedInput>) -> (r: MachineAction)
        ensures
            final(self).pressed == old(self).pressed,
            final(self).observed_suppression_epoch == old(self).observed_suppression_epoch,
            final(self).last_focus_refresh_ms == old(self).last_focus_refresh_ms,
            (final(self).machine.state, r) == refreshed(old(self).machine.state, focus),
    {
        self.machine.refresh_focus(focus)
    }
}

/// What can keep the monitor from starting.
#[derive(Debug, Clone, Copy, PartialEq, Eq, Structural)]
pub enum StartFailure {
    /// Keys cannot be listened to.
    Listener,
    /// No thread can be started.
    Thread,
}

/// What is said where the monitor cannot start because of `error`.
pub open spec fn start_message(failure: StartFailure, error: Seq<char>) -> Seq<char> {
    match failure {
        StartFailure::Listener => "Unable to monitor global typing: "@ + error,
        StartFailure::Thread => "Unable to start the typing monitor thread: "@ + error,
    }
}

/// What is said where the monitor cannot start because of `error`.
pub fn start_error(failure: StartFailure, error: &str) -> (r: String)
    ensures
        r@ == start_message(failure, error@),
{
    match failure {
        StartFailure::Listener => prefixed("Unable to monitor global typing: ", error),
        StartFailure::Thread => prefixed("Unable to start the typing monitor thread: ", error),
    }
}

} // verus!
