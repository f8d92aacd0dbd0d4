//! The steps of pasting through the clipboard.
//!
//! The text is offered, the paste is sent, and the clipboard is put back only when the
//! target was seen to take the text. On Wayland nobody can tell who takes it: there the
//! text stays on the clipboard, and nothing is claimed.
use super::outcome::{
    linux_clipboard_strategy, macos_paste_observed, should_use_direct_text_transport,
    wayland_dispatch_outcome, ClipboardPasteOutcome, LinuxClipboardStrategy,
};
use super::provider::{LinuxPasteWaitOutcome, LinuxProviderEvent};
use crate::settings::PasteMethod;
use crate::text::strings::{contains_text, prefixed, same_text};
use vstd::prelude::*;

verus! {

/// The kinds of desktops, which differ in how a paste can be confirmed.
#[derive(Debug, Clone, Copy, PartialEq, Eq, Structural)]
pub enum Desktop {
    MacOs,
    Windows,
    X11,
    Wayland,
}

/// What came of the whole.
#[derive(Debug, Clone, Copy, PartialEq, Eq, Structural)]
pub enum Verdict {
    /// The text arrived.
    Confirmed,
    /// The paste was sent.
    Dispatched,
    /// The text may not have arrived.
    Unconfirmed,
    /// The paste could not be carried out.
    Failed,
}

/// What is to be done.
#[derive(Debug, Clone, Copy, PartialEq, Eq, Structural)]
pub enum DeliveryPhase {
    /// Type the text.
    TypeText,
    /// Write the text to the clipboard, for good.
    WritePersistent,
    /// Save what is on the clipboard.
    Save,
    /// Paste by delayed rendering.
    Inject,
    /// Read what is in the focused field.
    ReadFocused,
    /// Offer the text from a window of our own.
    Offer,
    /// Write the text to the clipboard for the user to paste.
    WriteRecovery,
    /// Write the text to the clipboard.
    Write,
    /// Wait until the clipboard holds the text, for half a second at most.
    AwaitPublication,
    /// Wait before pasting.
    SleepBefore,
    /// See whether the provider told something already.
    TakeEarly,
    /// Arm the provider, within half a second.
    Arm,
    /// Press the key combination with an installed program.
    PressWithTool,
    /// Press the key combination.
    Press,
    /// Wait after pasting.
    SleepAfter,
    /// Wait for the target to take the text.
    AwaitConsumer,
    /// Watch the focused field for the text.
    Watch,
    /// Put the clipboard back.
    Restore,
    /// Nothing.
    Finished(Verdict),
}

/// How long the clipboard may take to hold the text, and the provider to arm, in
/// milliseconds.
pub const SETUP_TIMEOUT_MS: u64 = 500;

/// How long the target may take at least, in milliseconds.
pub const MIN_CONSUMER_TIMEOUT_MS: u64 = 2_000;

/// What came of pasting by delayed rendering.
pub enum WindowsPasteOutcome {
    Complete { read_confirmed: bool },
    /// The user has to paste, for the given reason.
    ManualPaste(String),
}

/// What happened.
pub enum DeliveryEvent {
    /// It was done, or failed.
    Done(Result<(), String>),
    /// It was done or came to pass.
    Past,
    Injected(Result<WindowsPasteOutcome, String>),
    /// The contents of the focused field could be read or not.
    FocusedRead { readable: bool },
    Published { published: bool },
    Early(Option<LinuxProviderEvent>),
    Armed(Result<(), LinuxPasteWaitOutcome>),
    /// A program pressed the keys, there was none, or it failed.
    PressedWithTool(Result<bool, String>),
    Waited(LinuxPasteWaitOutcome),
    Watched { observed: bool },
}

/// How the paste is to be carried out.
#[derive(Debug, Clone, Copy, PartialEq, Eq, Structural)]
pub struct DeliveryPlan {
    pub desktop: Desktop,
    pub method: PasteMethod,
    /// The text is typed in place of being pasted.
    pub direct: bool,
}

/// How text is pasted by a method on a desktop.
pub open spec fn planned(desktop: Desktop, method: PasteMethod) -> DeliveryPlan {
    DeliveryPlan { desktop, method, direct: desktop is MacOs && method.uses_combo() }
}

impl DeliveryPlan {
    /// How text is pasted by a method on a desktop.
    pub fn new(desktop: Desktop, method: PasteMethod) -> (r: DeliveryPlan)
        ensures
            r.desktop == desktop,
            r.method == method,
            r.direct == (desktop is MacOs && method.uses_combo()),
            r == planned(desktop, method),
    {
        DeliveryPlan {
            desktop,
            method,
            direct: should_use_direct_text_transport(desktop == Desktop::MacOs, &method),
        }
    }
}

/// The kind of a desktop on Linux.
pub open spec fn desktop_on_linux(is_wayland_session: bool) -> Desktop {
    if is_wayland_session {
        Desktop::Wayland
    } else {
        Desktop::X11
    }
}

/// The kind of a desktop on Linux.
pub fn linux_desktop(is_wayland_session: bool) -> (r: Desktop)
    ensures
        r == (if is_wayland_session {
            Desktop::Wayland
        } else {
            Desktop::X11
        }),
        r == desktop_on_linux(is_wayland_session),
{
    match linux_clipboard_strategy(is_wayland_session) {
        LinuxClipboardStrategy::WaylandPersistentDispatch => Desktop::Wayland,
        LinuxClipboardStrategy::VerifiedX11 => Desktop::X11,
    }
}

/// Where the text stays on the clipboard.
pub const MANUAL_RETRY: &'static str =
    "Paste delivery could not be confirmed; the transcript remains on the clipboard for manual retry";

/// Where the clipboard could not be offered.
pub const OFFER_UNAVAILABLE: &'static str =
    "Synchronized clipboard delivery was unavailable; the transcript remains on the clipboard for manual retry";

/// Where pasting by delayed rendering failed, and then nobody could tell.
pub const WINDOWS_FALLBACK: &'static str =
    "The synchronized Windows paste path failed and fallback delivery could not be confirmed; the transcript remains on the clipboard";

/// Where another program took the clipboard.
pub const OWNERSHIP_CHANGED: &'static str =
    "Clipboard ownership changed before paste could be confirmed; the newer clipboard was left untouched";

/// Where the provider failed.
pub const PROVIDER_FAILED: &'static str =
    "Clipboard delivery could not be confirmed; the current clipboard was left untouched";

/// Where the clipboard never held the text.
pub const NOT_PUBLISHED: &'static str =
    "Clipboard did not publish the transcription before paste";

/// Where the method has no key combination.
pub const INVALID_METHOD: &'static str = "Invalid paste method for clipboard paste";

/// What an event of the provider is called.
pub open spec fn event_name(event: LinuxProviderEvent) -> Seq<char> {
    match event {
        LinuxProviderEvent::PasteArmed => "PasteArmed"@,
        LinuxProviderEvent::DeliveryConfirmed => "DeliveryConfirmed"@,
        LinuxProviderEvent::OwnershipLost => "OwnershipLost"@,
        LinuxProviderEvent::ProviderFailed => "ProviderFailed"@,
    }
}

/// What an outcome of waiting is called.
pub open spec fn wait_name(outcome: LinuxPasteWaitOutcome) -> Seq<char> {
    match outcome {
        LinuxPasteWaitOutcome::Confirmed => "Confirmed"@,
        LinuxPasteWaitOutcome::OwnershipLost => "OwnershipLost"@,
        LinuxPasteWaitOutcome::ProviderFailed => "ProviderFailed"@,
        LinuxPasteWaitOutcome::TimedOut => "TimedOut"@,
    }
}

/// What is said where the provider told something before the paste was sent.
pub open spec fn early_message(event: LinuxProviderEvent) -> Seq<char> {
    "Clipboard ownership was lost before paste ("@ + event_name(event)
        + "); the current clipboard was left untouched"@
}

/// What is said where the provider could not be armed.
pub open spec fn arm_message(outcome: LinuxPasteWaitOutcome) -> Seq<char> {
    "Clipboard provider could not arm paste ("@ + wait_name(outcome)
        + "); the current clipboard was left untouched"@
}

/// The end, with nothing to say.
pub open spec fn ends(verdict: Verdict) -> (DeliveryPhase, Seq<char>) {
    (DeliveryPhase::Finished(verdict), Seq::empty())
}

/// The end, for the given reason.
pub open spec fn ends_with(verdict: Verdict, message: Seq<char>) -> (DeliveryPhase, Seq<char>) {
    (DeliveryPhase::Finished(verdict), message)
}

/// More to do.
pub open spec fn goes_on(phase: DeliveryPhase) -> (DeliveryPhase, Seq<char>) {
    (phase, Seq::empty())
}

/// The first thing to do.
pub open spec fn first_phase(plan: DeliveryPlan) -> DeliveryPhase {
    if plan.direct {
        DeliveryPhase::TypeText
    } else if plan.desktop is Wayland {
        DeliveryPhase::WritePersistent
    } else {
        DeliveryPhase::Save
    }
}

/// What to do to press the key combination, where no program does it.
pub open spec fn pressing(plan: DeliveryPlan) -> (DeliveryPhase, Seq<char>) {
    if plan.method.uses_combo() {
        goes_on(DeliveryPhase::Press)
    } else {
        ends_with(Verdict::Failed, INVALID_METHOD@)
    }
}

/// What to do when the key combination was pressed. On macOS the focused field can be
/// watched where its contents could be read before.
pub open spec fn after_press(plan: DeliveryPlan, readable: bool) -> (DeliveryPhase, Seq<char>) {
    match plan.desktop {
        Desktop::Wayland => ends(Verdict::Dispatched),
        Desktop::X11 => goes_on(DeliveryPhase::AwaitConsumer),
        Desktop::Windows => goes_on(DeliveryPhase::SleepAfter),
        Desktop::MacOs => if readable {
            goes_on(DeliveryPhase::Watch)
        } else {
            ends_with(Verdict::Unconfirmed, MANUAL_RETRY@)
        },
    }
}

/// What to do when something was done or failed.
pub open spec fn after_done(
    plan: DeliveryPlan,
    phase: DeliveryPhase,
    readable: bool,
    result: Result<(), String>,
) -> (DeliveryPhase, Seq<char>) {
    match (phase, result) {
        (DeliveryPhase::TypeText, Ok(_)) => ends(Verdict::Confirmed),
        (DeliveryPhase::TypeText, Err(error)) => ends_with(Verdict::Failed, error@),
        (DeliveryPhase::WritePersistent, Ok(_)) => goes_on(DeliveryPhase::PressWithTool),
        (DeliveryPhase::WritePersistent, Err(error)) => ends_with(
            Verdict::Failed,
            "Failed to publish Wayland clipboard: "@ + error@,
        ),
        (DeliveryPhase::Offer, Ok(_)) => goes_on(DeliveryPhase::SleepBefore),
        (DeliveryPhase::Offer, Err(_)) => goes_on(DeliveryPhase::WriteRecovery),
        (DeliveryPhase::WriteRecovery, Ok(_)) => ends_with(
            Verdict::Unconfirmed,
            OFFER_UNAVAILABLE@,
        ),
        (DeliveryPhase::WriteRecovery, Err(error)) => ends_with(Verdict::Failed, error@),
        (DeliveryPhase::Write, Ok(_)) => goes_on(DeliveryPhase::AwaitPublication),
        (DeliveryPhase::Write, Err(error)) => ends_with(
            Verdict::Failed,
            "Failed to write to clipboard: "@ + error@,
        ),
        (_, Ok(_)) => after_press(plan, readable),
        (_, Err(error)) => ends_with(Verdict::Failed, error@),
    }
}

/// What to do when something came to pass.
pub open spec fn after_past(plan: DeliveryPlan, phase: DeliveryPhase) -> (DeliveryPhase, Seq<char>) {
    match phase {
        DeliveryPhase::Save => match plan.desktop {
            Desktop::Windows => goes_on(DeliveryPhase::Inject),
            Desktop::MacOs => goes_on(DeliveryPhase::ReadFocused),
            _ => goes_on(DeliveryPhase::Offer),
        },
        DeliveryPhase::SleepBefore => if plan.desktop is X11 {
            goes_on(DeliveryPhase::TakeEarly)
        } else {
            pressing(plan)
        },
        DeliveryPhase::SleepAfter => ends_with(Verdict::Unconfirmed, WINDOWS_FALLBACK@),
        _ => ends(Verdict::Confirmed),
    }
}

/// The event is one that follows on what was to be done.
pub open spec fn fits(phase: DeliveryPhase, event: DeliveryEvent) -> bool {
    match phase {
        DeliveryPhase::TypeText => event is Done,
        DeliveryPhase::WritePersistent => event is Done,
        DeliveryPhase::Offer => event is Done,
        DeliveryPhase::WriteRecovery => event is Done,
        DeliveryPhase::Write => event is Done,
        DeliveryPhase::Press => event is Done,
        DeliveryPhase::Save => event is Past,
        DeliveryPhase::SleepBefore => event is Past,
        DeliveryPhase::SleepAfter => event is Past,
        DeliveryPhase::Restore => event is Past,
        DeliveryPhase::Inject => event is Injected,
        DeliveryPhase::ReadFocused => event is FocusedRead,
        DeliveryPhase::AwaitPublication => event is Published,
        DeliveryPhase::TakeEarly => event is Early,
        DeliveryPhase::Arm => event is Armed,
        DeliveryPhase::PressWithTool => event is PressedWithTool,
        DeliveryPhase::AwaitConsumer => event is Waited,
        DeliveryPhase::Watch => event is Watched,
        DeliveryPhase::Finished(_) => false,
    }
}

/// What to do after an event, and what to say at the end. `readable` says whether the
/// contents of the focused field could be read.
pub open spec fn proceeded(
    plan: DeliveryPlan,
    phase: DeliveryPhase,
    readable: bool,
    event: DeliveryEvent,
) -> (DeliveryPhase, Seq<char>) {
    match event {
        DeliveryEvent::Done(result) => after_done(plan, phase, readable, result),
        DeliveryEvent::Past => after_past(plan, phase),
        DeliveryEvent::Injected(Ok(WindowsPasteOutcome::Complete { read_confirmed })) => if
        read_confirmed {
            goes_on(DeliveryPhase::Restore)
        } else {
            ends_with(Verdict::Unconfirmed, MANUAL_RETRY@)
        },
        DeliveryEvent::Injected(Ok(WindowsPasteOutcome::ManualPaste(message))) => ends_with(
            Verdict::Failed,
            message@,
        ),
        DeliveryEvent::Injected(Err(_)) => goes_on(DeliveryPhase::Write),
        DeliveryEvent::FocusedRead { .. } => goes_on(DeliveryPhase::Write),
        DeliveryEvent::Published { published } => if published {
            goes_on(DeliveryPhase::SleepBefore)
        } else {
            ends_with(Verdict::Failed, NOT_PUBLISHED@)
        },
        DeliveryEvent::Early(Some(told)) => ends_with(Verdict::Unconfirmed, early_message(told)),
        DeliveryEvent::Early(None) => goes_on(DeliveryPhase::Arm),
        DeliveryEvent::Armed(Ok(_)) => goes_on(DeliveryPhase::PressWithTool),
        DeliveryEvent::Armed(Err(outcome)) => ends_with(
            Verdict::Unconfirmed,
            arm_message(outcome),
        ),
        DeliveryEvent::PressedWithTool(Ok(pressed)) => if pressed {
            after_press(plan, readable)
        } else {
            pressing(plan)
        },
        DeliveryEvent::PressedWithTool(Err(error)) => ends_with(Verdict::Failed, error@),
        DeliveryEvent::Waited(LinuxPasteWaitOutcome::Confirmed) => goes_on(DeliveryPhase::Restore),
        DeliveryEvent::Waited(LinuxPasteWaitOutcome::OwnershipLost) => ends_with(
            Verdict::Unconfirmed,
            OWNERSHIP_CHANGED@,
        ),
        DeliveryEvent::Waited(LinuxPasteWaitOutcome::ProviderFailed) => ends_with(
            Verdict::Unconfirmed,
            PROVIDER_FAILED@,
        ),
        DeliveryEvent::Waited(LinuxPasteWaitOutcome::TimedOut) => ends_with(
            Verdict::Unconfirmed,
            MANUAL_RETRY@,
        ),
        DeliveryEvent::Watched { observed } => if observed {
            goes_on(DeliveryPhase::Restore)
        } else {
            ends_with(Verdict::Unconfirmed, MANUAL_RETRY@)
        },
    }
}

/// Whether the contents of the focused field could be read, after an event.
pub open spec fn readable_after(readable: bool, event: DeliveryEvent) -> bool {
    match event {
        DeliveryEvent::FocusedRead { readable } => readable,
        _ => readable,
    }
}

/// What an event of the provider is called.
fn name_of_event(event: LinuxProviderEvent) -> (r: &'static str)
    ensures
        r@ == event_name(event),
{
    match event {
        LinuxProviderEvent::PasteArmed => "PasteArmed",
        LinuxProviderEvent::DeliveryConfirmed => "DeliveryConfirmed",
        LinuxProviderEvent::OwnershipLost => "OwnershipLost",
        LinuxProviderEvent::ProviderFailed => "ProviderFailed",
    }
}

/// What an outcome of waiting is called.
fn name_of_wait(outcome: LinuxPasteWaitOutcome) -> (r: &'static str)
    ensures
        r@ == wait_name(outcome),
{
    match outcome {
        LinuxPasteWaitOutcome::Confirmed => "Confirmed",
        LinuxPasteWaitOutcome::OwnershipLost => "OwnershipLost",
        LinuxPasteWaitOutcome::ProviderFailed => "ProviderFailed",
        LinuxPasteWaitOutcome::TimedOut => "TimedOut",
    }
}

/// `r` is what came of a paste that ended in `phase` with `message` to say.
pub open spec fn comes_to(
    phase: DeliveryPhase,
    message: Seq<char>,
    r: Result<ClipboardPasteOutcome, String>,
) -> bool {
    match phase {
        DeliveryPhase::Finished(Verdict::Confirmed) => r matches Ok(o) && o is Confirmed,
        DeliveryPhase::Finished(Verdict::Dispatched) => r matches Ok(o)
            && o is DispatchedUnverified,
        DeliveryPhase::Finished(Verdict::Unconfirmed) => r matches Ok(o) && (o
            matches ClipboardPasteOutcome::Unconfirmed(m) && m@ == message),
        _ => r matches Err(m) && m@ == message,
    }
}

/// How long the target may take, in milliseconds.
pub open spec fn consumer_timeout(paste_delay_after_ms: u64) -> u64 {
    if paste_delay_after_ms >= MIN_CONSUMER_TIMEOUT_MS {
        paste_delay_after_ms
    } else {
        MIN_CONSUMER_TIMEOUT_MS
    }
}

/// What a look at the clipboard says about waiting for the text there.
pub open spec fn publication(current: Option<Seq<char>>, text: Seq<char>, overdue: bool) -> WaitStep {
    if current == Some(text) {
        WaitStep::Arrived
    } else if overdue {
        WaitStep::GaveUp
    } else {
        WaitStep::Again
    }
}

/// What a look at the focused field says about waiting for the transcript there.
pub open spec fn watching(
    before: Seq<char>,
    after: Option<Seq<char>>,
    transcript: Seq<char>,
    overdue: bool,
) -> WaitStep {
    if overdue {
        WaitStep::GaveUp
    } else if after is Some && after->0 != before && contains_text(after->0, transcript) {
        WaitStep::Arrived
    } else {
        WaitStep::Again
    }
}

/// What of an optional text is looked at.
pub open spec fn contents(text: Option<String>) -> Option<Seq<char>> {
    match text {
        Some(t) => Some(t@),
        None => None,
    }
}

/// The key combination of a method, if it has one.
pub open spec fn chord_of(method: PasteMethod) -> Option<PasteChord> {
    match method {
        PasteMethod::CtrlV => Some(PasteChord::CtrlV),
        PasteMethod::CtrlShiftV => Some(PasteChord::CtrlShiftV),
        PasteMethod::ShiftInsert => Some(PasteChord::ShiftInsert),
        _ => None,
    }
}

/// `r` is what pasting by delayed rendering came to, where that gave `result`.
pub open spec fn rendered(
    result: Result<InjectOutcome, String>,
    r: Result<WindowsPasteOutcome, String>,
) -> bool {
    match result {
        Ok(InjectOutcome::Pasted { read_confirmed }) => r == Ok::<WindowsPasteOutcome, String>(
            WindowsPasteOutcome::Complete { read_confirmed },
        ),
        Ok(InjectOutcome::ClipboardOnly) => r matches Ok(WindowsPasteOutcome::ManualPaste(m))
            && m@ == MANUAL_PASTE@,
        Ok(InjectOutcome::Typed) => r matches Err(m) && m@ == UNEXPECTED_TYPING@,
        Err(error) => r matches Err(m) && m@ == error@,
    }
}

/// A paste through the clipboard.
pub struct Delivery {
    pub plan: DeliveryPlan,
    pub phase: DeliveryPhase,
    /// The contents of the focused field could be read.
    pub readable: bool,
    /// What to say at the end.
    pub message: String,
}

impl Delivery {
    /// A paste that is about to begin.
    pub fn new(plan: DeliveryPlan) -> (r: Delivery)
        ensures
            r.plan == plan,
            r.phase == first_phase(plan),
            !r.readable,
            r.message@ == Seq::<char>::empty(),
    {
        let phase: DeliveryPhase = if plan.direct {
            DeliveryPhase::TypeText
        } else if plan.desktop == Desktop::Wayland {
            DeliveryPhase::WritePersistent
        } else {
            DeliveryPhase::Save
        };
        Delivery { plan, phase, readable: false, message: String::new() }
    }

    /// More is to be done.
    fn go_on(&mut self, phase: DeliveryPhase)
        ensures
            final(self).plan == old(self).plan,
            final(self).readable == old(self).readable,
            (final(self).phase, final(self).message@) == goes_on(phase),
    {
        self.phase = phase;
        self.message = String::new();
    }

    /// The paste is over.
    fn end(&mut self, verdict: Verdict, message: &str)
        ensures
            final(self).plan == old(self).plan,
            final(self).readable == old(self).readable,
            (final(self).phase, final(self).message@) == ends_with(verdict, message@),
    {
        self.phase = DeliveryPhase::Finished(verdict);
        self.message = message.to_owned();
    }

    /// The paste is over, and there is nothing to say.
    fn end_quietly(&mut self, verdict: Verdict)
        ensures
            final(self).plan == old(self).plan,
            final(self).readable == old(self).readable,
            (final(self).phase, final(self).message@) == ends(verdict),
    {
        self.phase = DeliveryPhase::Finished(verdict);
        self.message = String::new();
    }

    /// The key combination is to be pressed.
    fn press(&mut self)
        ensures
            final(self).plan == old(self).plan,
            final(self).readable == old(self).readable,
            (final(self).phase, final(self).message@) == pressing(old(self).plan),
    {
        if self.plan.method.is_combo() {
            self.go_on(DeliveryPhase::Press);
        } else {
            self.end(Verdict::Failed, INVALID_METHOD);
        }
    }

    /// The key combination was pressed.
    fn pressed(&mut self)
        ensures
            final(self).plan == old(self).plan,
            final(self).readable == old(self).readable,
            (final(self).phase, final(self).message@) == after_press(
                old(self).plan,
                old(self).readable,
            ),
    {
        match self.plan.desktop {
            Desktop::Wayland => self.end_quietly(Verdict::Dispatched),
            Desktop::X11 => self.go_on(DeliveryPhase::AwaitConsumer),
            Desktop::Windows => self.go_on(DeliveryPhase::SleepAfter),
            Desktop::MacOs => {
                if self.readable {
                    self.go_on(DeliveryPhase::Watch);
                } else {
                    self.end(Verdict::Unconfirmed, MANUAL_RETRY);
                }
            },
        }
    }

    /// Something was done or failed.
    fn done(&mut self, result: Result<(), String>)
        ensures
            final(self).plan == old(self).plan,
            final(self).readable == old(self).readable,
            (final(self).phase, final(self).message@) == after_done(
                old(self).plan,
                old(self).phase,
                old(self).readable,
                result,
            ),
    {
        match (self.phase, result) {
            (DeliveryPhase::TypeText, Ok(_)) => self.end_quietly(Verdict::Confirmed),
            (DeliveryPhase::TypeText, Err(error)) => self.end(Verdict::Failed, error.as_str()),
            (DeliveryPhase::WritePersistent, Ok(_)) => self.go_on(DeliveryPhase::PressWithTool),
            (DeliveryPhase::WritePersistent, Err(error)) => {
                let message: String = prefixed(
                    "Failed to publish Wayland clipboard: ",
                    error.as_str(),
                );
                self.end(Verdict::Failed, message.as_str());
            },
            (DeliveryPhase::Offer, Ok(_)) => self.go_on(DeliveryPhase::SleepBefore),
            (DeliveryPhase::Offer, Err(_)) => self.go_on(DeliveryPhase::WriteRecovery),
            (DeliveryPhase::WriteRecovery, Ok(_)) => self.end(
                Verdict::Unconfirmed,
                OFFER_UNAVAILABLE,
            ),
            (DeliveryPhase::WriteRecovery, Err(error)) => self.end(
                Verdict::Failed,
                error.as_str(),
            ),
            (DeliveryPhase::Write, Ok(_)) => self.go_on(DeliveryPhase::AwaitPublication),
            (DeliveryPhase::Write, Err(error)) => {
                let message: String = prefixed("Failed to write to clipboard: ", error.as_str());
                self.end(Verdict::Failed, message.as_str());
            },
            (_, Ok(_)) => self.pressed(),
            (_, Err(error)) => self.end(Verdict::Failed, error.as_str()),
        }
    }

    /// Something came to pass.
    fn past(&mut self)
        ensures
            final(self).plan == old(self).plan,
            final(self).readable == old(self).readable,
            (final(self).phase, final(self).message@) == after_past(
                old(self).plan,
                old(self).phase,
            ),
    {
        match self.phase {
            DeliveryPhase::Save => match self.plan.desktop {
                Desktop::Windows => self.go_on(DeliveryPhase::Inject),
                Desktop::MacOs => self.go_on(DeliveryPhase::ReadFocused),
                _ => self.go_on(DeliveryPhase::Offer),
            },
            DeliveryPhase::SleepBefore => {
                if self.plan.desktop == Desktop::X11 {
                    self.go_on(DeliveryPhase::TakeEarly);
                } else {
                    self.press();
                }
            },
            DeliveryPhase::SleepAfter => self.end(Verdict::Unconfirmed, WINDOWS_FALLBACK),
            _ => self.end_quietly(Verdict::Confirmed),
        }
    }

    /// Takes note of what happened while doing what the phase asks for.
    pub fn proceed(&mut self, event: DeliveryEvent)
        requires
            fits(old(self).phase, event),
        ensures
            final(self).plan == old(self).plan,
            final(self).readable == readable_after(old(self).readable, event),
            (final(self).phase, final(self).message@) == proceeded(
                old(self).plan,
                old(self).phase,
                old(self).readable,
                event,
            ),
    {
        match event {
            DeliveryEvent::Done(result) => self.done(result),
            DeliveryEvent::Past => self.past(),
            DeliveryEvent::Injected(Ok(WindowsPasteOutcome::Complete { read_confirmed })) => {
                if read_confirmed {
                    self.go_on(DeliveryPhase::Restore);
                } else {
                    // The target may still read the clipboard.
                    self.end(Verdict::Unconfirmed, MANUAL_RETRY);
                }
            },
            DeliveryEvent::Injected(Ok(WindowsPasteOutcome::ManualPaste(message))) => {
                self.end(Verdict::Failed, message.as_str());
            },
            DeliveryEvent::Injected(Err(_)) => self.go_on(DeliveryPhase::Write),
            DeliveryEvent::FocusedRead { readable } => {
                self.readable = readable;
                self.go_on(DeliveryPhase::Write);
            },
            DeliveryEvent::Published { published } => {
                if published {
                    self.go_on(DeliveryPhase::SleepBefore);
                } else {
                    self.end(Verdict::Failed, NOT_PUBLISHED);
                }
            },
            DeliveryEvent::Early(Some(told)) => {
                let mut message: String = prefixed(
                    "Clipboard ownership was lost before paste (",
                    name_of_event(told),
                );
                message.push_str("); the current clipboard was left untouched");
                self.end(Verdict::Unconfirmed, message.as_str());
            },
            DeliveryEvent::Early(None) => self.go_on(DeliveryPhase::Arm),
            DeliveryEvent::Armed(Ok(_)) => self.go_on(DeliveryPhase::PressWithTool),
            DeliveryEvent::Armed(Err(outcome)) => {
                let mut message: String = prefixed(
                    "Clipboard provider could not arm paste (",
                    name_of_wait(outcome),
                );
                message.push_str("); the current clipboard was left untouched");
                self.end(Verdict::Unconfirmed, message.as_str());
            },
            DeliveryEvent::PressedWithTool(Ok(pressed)) => {
                if pressed {
                    self.pressed();
                } else {
                    self.press();
                }
            },
            DeliveryEvent::PressedWithTool(Err(error)) => {
                self.end(Verdict::Failed, error.as_str());
            },
            DeliveryEvent::Waited(outcome) => match outcome {
                LinuxPasteWaitOutcome::Confirmed => self.go_on(DeliveryPhase::Restore),
                LinuxPasteWaitOutcome::OwnershipLost => self.end(
                    Verdict::Unconfirmed,
                    OWNERSHIP_CHANGED,
                ),
                LinuxPasteWaitOutcome::ProviderFailed => self.end(
                    Verdict::Unconfirmed,
                    PROVIDER_FAILED,
                ),
                LinuxPasteWaitOutcome::TimedOut => self.end(Verdict::Unconfirmed, MANUAL_RETRY),
            },
            DeliveryEvent::Watched { observed } => {
                if observed {
                    self.go_on(DeliveryPhase::Restore);
                } else {
                    self.end(Verdict::Unconfirmed, MANUAL_RETRY);
                }
            },
        }
    }

    /// What came of the paste, once it is over.
    pub fn outcome(self) -> (r: Result<ClipboardPasteOutcome, String>)
        requires
            self.phase is Finished,
        ensures
            match self.phase {
                DeliveryPhase::Finished(Verdict::Confirmed) => r matches Ok(o) && o is Confirmed,
                DeliveryPhase::Finished(Verdict::Dispatched) => r matches Ok(o)
                    && o is DispatchedUnverified,
                DeliveryPhase::Finished(Verdict::Unconfirmed) => r matches Ok(o) && (o
                    matches ClipboardPasteOutcome::Unconfirmed(m) && m@ == self.message@),
                _ => r matches Err(m) && m@ == self.message@,
            },
            comes_to(self.phase, self.message@, r),
    {
        match self.phase {
            DeliveryPhase::Finished(Verdict::Confirmed) => Ok(ClipboardPasteOutcome::Confirmed),
            DeliveryPhase::Finished(Verdict::Dispatched) => Ok(wayland_dispatch_outcome()),
            DeliveryPhase::Finished(Verdict::Unconfirmed) => Ok(
                ClipboardPasteOutcome::Unconfirmed(self.message),
            ),
            _ => Err(self.message),
        }
    }
}

/// How long the target may take, in milliseconds.
pub fn consumer_timeout_ms(paste_delay_after_ms: u64) -> (r: u64)
    ensures
        r == (if paste_delay_after_ms >= MIN_CONSUMER_TIMEOUT_MS {
            paste_delay_after_ms
        } else {
            MIN_CONSUMER_TIMEOUT_MS
        }),
        r == consumer_timeout(paste_delay_after_ms),
{
    if paste_delay_after_ms >= MIN_CONSUMER_TIMEOUT_MS {
        paste_delay_after_ms
    } else {
        MIN_CONSUMER_TIMEOUT_MS
    }
}

/// What to do about waiting for something.
#[derive(Debug, Clone, Copy, PartialEq, Eq, Structural)]
pub enum WaitStep {
    /// It came.
    Arrived,
    /// It did not come in time.
    GaveUp,
    /// Wait a little and look again.
    Again,
}

/// Whether the clipboard holds the text: looked at before the clock.
pub fn publication_step(current: &Option<String>, text: &str, overdue: bool) -> (r: WaitStep)
    ensures
        r is Arrived <==> (*current matches Some(c) && c@ == text@),
        r is GaveUp <==> !(r is Arrived) && overdue,
        r == publication(contents(*current), text@, overdue),
{
    if let Some(current) = current {
        if same_text(current.as_str(), text) {
            return WaitStep::Arrived;
        }
    }
    if overdue {
        WaitStep::GaveUp
    } else {
        WaitStep::Again
    }
}

/// Whether the focused field shows the transcript: looked at only while there is
/// time.
pub fn watch_step(before: &str, after: &Option<String>, transcript: &str, overdue: bool) -> (r:
    WaitStep)
    ensures
        r is GaveUp <==> overdue,
        r is Arrived <==> !overdue && (*after matches Some(a) && before@ != a@ && contains_text(
            a@,
            transcript@,
        )),
        r == watching(before@, contents(*after), transcript@, overdue),
{
    if overdue {
        return WaitStep::GaveUp;
    }
    if let Some(after) = after {
        if macos_paste_observed(before, after.as_str(), transcript) {
            return WaitStep::Arrived;
        }
    }
    WaitStep::Again
}

/// The key combinations that can be rendered on delay.
#[derive(Debug, Clone, Copy, PartialEq, Eq, Structural)]
pub enum PasteChord {
    CtrlV,
    CtrlShiftV,
    ShiftInsert,
}

/// The key combination of a method.
pub fn windows_chord(method: PasteMethod) -> (r: Result<PasteChord, String>)
    ensures
        match method {
            PasteMethod::CtrlV => r matches Ok(c) && c is CtrlV,
            PasteMethod::CtrlShiftV => r matches Ok(c) && c is CtrlShiftV,
            PasteMethod::ShiftInsert => r matches Ok(c) && c is ShiftInsert,
            _ => r matches Err(m) && m@ == INVALID_METHOD@,
        },
        match chord_of(method) {
            Some(chord) => r matches Ok(c) && c == chord,
            None => r matches Err(m) && m@ == INVALID_METHOD@,
        },
{
    match method {
        PasteMethod::CtrlV => Ok(PasteChord::CtrlV),
        PasteMethod::CtrlShiftV => Ok(PasteChord::CtrlShiftV),
        PasteMethod::ShiftInsert => Ok(PasteChord::ShiftInsert),
        _ => Err(INVALID_METHOD.to_owned()),
    }
}

/// What delayed rendering came to.
#[derive(Debug, Clone, Copy, PartialEq, Eq, Structural)]
pub enum InjectOutcome {
    Pasted { read_confirmed: bool },
    /// The text is on the clipboard, and nothing was pasted.
    ClipboardOnly,
    Typed,
}

/// Where the user has to paste.
pub const MANUAL_PASTE: &'static str =
    "The target could not accept synthesized input; the transcript was left on the clipboard for manual paste";

/// Where text was typed that was to be pasted.
pub const UNEXPECTED_TYPING: &'static str =
    "Unexpected direct-typing outcome from Windows paste";

/// What pasting by delayed rendering came to.
pub fn windows_paste_outcome(result: Result<InjectOutcome, String>) -> (r: Result<
    WindowsPasteOutcome,
    String,
>)
    ensures
        match result {
            Ok(InjectOutcome::Pasted { read_confirmed }) => r
                matches Ok(WindowsPasteOutcome::Complete { read_confirmed: c }) && c
                == read_confirmed,
            Ok(InjectOutcome::ClipboardOnly) => r matches Ok(WindowsPasteOutcome::ManualPaste(m))
                && m@ == MANUAL_PASTE@,
            Ok(InjectOutcome::Typed) => r matches Err(m) && m@ == UNEXPECTED_TYPING@,
            Err(error) => r matches Err(m) && m@ == error@,
        },
        rendered(result, r),
{
    match result {
        Ok(InjectOutcome::Pasted { read_confirmed }) => Ok(
            WindowsPasteOutcome::Complete { read_confirmed },
        ),
        Ok(InjectOutcome::ClipboardOnly) => Ok(
            WindowsPasteOutcome::ManualPaste(MANUAL_PASTE.to_owned()),
        ),
        Ok(InjectOutcome::Typed) => Err(UNEXPECTED_TYPING.to_owned()),
        Err(error) => Err(error),
    }
}

/// The clipboard is put back only where the target was seen to take the text.
pub proof fn clipboard_is_restored_only_after_consumption(
    plan: DeliveryPlan,
    phase: DeliveryPhase,
    readable: bool,
    event: DeliveryEvent,
)
    requires
        fits(phase, event),
        proceeded(plan, phase, readable, event).0 is Restore,
    ensures
        match event {
            DeliveryEvent::Injected(Ok(WindowsPasteOutcome::Complete { read_confirmed })) => {
                read_confirmed
            },
            DeliveryEvent::Waited(outcome) => outcome is Confirmed,
            DeliveryEvent::Watched { observed } => observed,
            _ => false,
        },
{
}

/// Arrival is claimed only where the text was typed, or the clipboard was put back
/// after the target took it.
pub proof fn arrival_is_claimed_only_after_consumption(
    plan: DeliveryPlan,
    phase: DeliveryPhase,
    readable: bool,
    event: DeliveryEvent,
)
    requires
        fits(phase, event),
        proceeded(plan, phase, readable, event).0 == DeliveryPhase::Finished(Verdict::Confirmed),
    ensures
        phase is Restore || (phase is TypeText && event matches DeliveryEvent::Done(Ok(_))),
{
}

/// What can come up on Wayland: the text is written and the paste sent, and nothing is
/// waited for, put back or held against it.
pub open spec fn wayland_phase(phase: DeliveryPhase) -> bool {
    match phase {
        DeliveryPhase::WritePersistent => true,
        DeliveryPhase::PressWithTool => true,
        DeliveryPhase::Press => true,
        DeliveryPhase::Finished(verdict) => verdict is Dispatched || verdict is Failed,
        _ => false,
    }
}

/// On Wayland the text is written and the paste sent without waiting, putting back or
/// claiming arrival.
pub proof fn wayland_only_dispatches(
    plan: DeliveryPlan,
    phase: DeliveryPhase,
    readable: bool,
    event: DeliveryEvent,
)
    requires
        plan.desktop is Wayland,
        !plan.direct,
        wayland_phase(phase),
        fits(phase, event),
    ensures
        wayland_phase(first_phase(plan)),
        wayland_phase(proceeded(plan, phase, readable, event).0),
{
}

/// On macOS a method with a key combination types the text in place of that.
pub proof fn macos_types_in_place_of_pasting(plan: DeliveryPlan)
    requires
        plan.desktop is MacOs,
        plan.direct == (plan.desktop is MacOs && plan.method.uses_combo()),
        plan.method.uses_combo(),
    ensures
        first_phase(plan) is TypeText,
{
}

/// Where the text is typed, the clipboard is not touched.
pub proof fn typing_leaves_the_clipboard_alone(plan: DeliveryPlan, readable: bool, event: DeliveryEvent)
    requires
        plan.direct,
        fits(first_phase(plan), event),
    ensures
        proceeded(plan, first_phase(plan), readable, event).0 is Finished,
{
}

/// How far a phase is from the end.
pub open spec fn remaining(phase: DeliveryPhase) -> nat {
    match phase {
        DeliveryPhase::Save => 12,
        DeliveryPhase::Inject => 11,
        DeliveryPhase::ReadFocused => 11,
        DeliveryPhase::Offer => 10,
        DeliveryPhase::Write => 10,
        DeliveryPhase::WritePersistent => 10,
        DeliveryPhase::AwaitPublication => 9,
        DeliveryPhase::SleepBefore => 8,
        DeliveryPhase::TakeEarly => 7,
        DeliveryPhase::Arm => 6,
        DeliveryPhase::PressWithTool => 5,
        DeliveryPhase::Press => 4,
        DeliveryPhase::SleepAfter => 3,
        DeliveryPhase::AwaitConsumer => 3,
        DeliveryPhase::Watch => 3,
        DeliveryPhase::Restore => 2,
        DeliveryPhase::WriteRecovery => 1,
        DeliveryPhase::TypeText => 1,
        DeliveryPhase::Finished(_) => 0,
    }
}

/// Every event brings the paste closer to its end.
pub proof fn delivery_comes_to_an_end(
    plan: DeliveryPlan,
    phase: DeliveryPhase,
    readable: bool,
    event: DeliveryEvent,
)
    requires
        fits(phase, event),
    ensures
        remaining(proceeded(plan, phase, readable, event).0) < remaining(phase),
{
}

} // verus!
