//! Bringing a transcript into the focused field, and what follows on that.
use super::outcome::{
    should_send_auto_submit, should_write_post_paste_clipboard, ClipboardPasteOutcome,
};
use crate::settings::{AutoSubmitKey, ClipboardHandling, PasteMethod};
use crate::text::strings::prefixed;
use vstd::prelude::*;

verus! {

/// What the user chose about pasting.
#[derive(Debug, Clone)]
pub struct PasteSettings {
    pub paste_method: PasteMethod,
    pub append_trailing_space: bool,
    pub auto_submit: bool,
    pub auto_submit_key: AutoSubmitKey,
    pub clipboard_handling: ClipboardHandling,
    pub external_script_path: Option<String>,
}

/// How long to wait before sending the message off, in milliseconds.
pub const SUBMIT_DELAY_MS: u64 = 50;

/// Where there is no keyboard to type on.
pub const NO_KEYBOARD: &'static str = "Enigo state not initialized";

/// Where the user chose a script and did not say which.
pub const NO_SCRIPT: &'static str = "External script path is not configured";

/// What is to be done.
#[derive(Debug, Clone, Copy, PartialEq, Eq, Structural)]
pub enum PastePhase {
    /// Get hold of the keyboard.
    TakeKeyboard,
    /// Type the text.
    TypeText,
    /// Paste the text through the clipboard.
    Deliver,
    /// Hand the text to the user's script.
    RunScript,
    /// Wait a little, and send the message off.
    Submit,
    /// Write the text to the clipboard.
    Copy,
    /// Nothing: the text was brought in, or the message says why not.
    Finished { ok: bool },
}

/// Whether there is a keyboard.
pub enum KeyboardAccess {
    Taken,
    /// There is none.
    Missing,
    /// It cannot be had, for the given reason.
    Unavailable(String),
}

/// What happened.
pub enum PasteEvent {
    Keyboard(KeyboardAccess),
    /// It was done, or failed.
    Done(Result<(), String>),
    /// The paste through the clipboard is over.
    Delivered(Result<ClipboardPasteOutcome, String>),
}

/// The text that is brought in: with a space behind it where the user wants one.
pub open spec fn pasted_text(text: Seq<char>, append_trailing_space: bool) -> Seq<char> {
    if append_trailing_space {
        text + " "@
    } else {
        text
    }
}

/// The end, for the given reason.
pub open spec fn refused(message: Seq<char>) -> (PastePhase, Seq<char>) {
    (PastePhase::Finished { ok: false }, message)
}

/// More to do.
pub open spec fn next_is(phase: PastePhase) -> (PastePhase, Seq<char>) {
    (phase, Seq::empty())
}

/// A script was chosen.
pub open spec fn has_script(settings: PasteSettings) -> bool {
    settings.external_script_path matches Some(path) && path@.len() > 0
}

/// The message is sent off when the text arrived, if the user wants that.
pub open spec fn submits(settings: PasteSettings) -> bool {
    settings.auto_submit && !(settings.paste_method is Nothing)
}

/// What to do when the message was sent off, or was not to be, and the text arrived.
pub open spec fn copying(settings: PasteSettings) -> (PastePhase, Seq<char>) {
    if settings.clipboard_handling is CopyToClipboard {
        next_is(PastePhase::Copy)
    } else {
        next_is(PastePhase::Finished { ok: true })
    }
}

/// What to do when the text arrived.
pub open spec fn arrived(settings: PasteSettings) -> (PastePhase, Seq<char>) {
    if submits(settings) {
        next_is(PastePhase::Submit)
    } else {
        copying(settings)
    }
}

/// What to do with the keyboard at hand.
pub open spec fn entered(settings: PasteSettings) -> (PastePhase, Seq<char>) {
    match settings.paste_method {
        PasteMethod::Nothing => arrived(settings),
        PasteMethod::Direct => next_is(PastePhase::TypeText),
        PasteMethod::ExternalScript => if has_script(settings) {
            next_is(PastePhase::RunScript)
        } else {
            refused(NO_SCRIPT@)
        },
        _ => next_is(PastePhase::Deliver),
    }
}

/// What to do when the paste through the clipboard is over. Where nobody can tell
/// whether the text arrived, nothing follows.
pub open spec fn delivered(
    settings: PasteSettings,
    result: Result<ClipboardPasteOutcome, String>,
) -> (PastePhase, Seq<char>) {
    match result {
        Ok(ClipboardPasteOutcome::Confirmed) => arrived(settings),
        Ok(ClipboardPasteOutcome::DispatchedUnverified) => next_is(
            PastePhase::Finished { ok: true },
        ),
        Ok(ClipboardPasteOutcome::Unconfirmed(message)) => refused(message@),
        Err(error) => refused(error@),
    }
}

/// What to do when something was done or failed.
pub open spec fn finished(
    settings: PasteSettings,
    phase: PastePhase,
    result: Result<(), String>,
) -> (PastePhase, Seq<char>) {
    match (phase, result) {
        (PastePhase::Submit, Ok(_)) => copying(settings),
        (PastePhase::Copy, Ok(_)) => next_is(PastePhase::Finished { ok: true }),
        (PastePhase::Copy, Err(error)) => refused("Failed to copy to clipboard: "@ + error@),
        (_, Ok(_)) => arrived(settings),
        (_, Err(error)) => refused(error@),
    }
}

/// The event is one that follows on what was to be done.
pub open spec fn answers(phase: PastePhase, event: PasteEvent) -> bool {
    match phase {
        PastePhase::TakeKeyboard => event is Keyboard,
        PastePhase::Deliver => event is Delivered,
        PastePhase::Finished { .. } => false,
        _ => event is Done,
    }
}

/// What to do after an event, and what to say at the end.
pub open spec fn advanced(settings: PasteSettings, phase: PastePhase, event: PasteEvent) -> (
    PastePhase,
    Seq<char>,
) {
    match event {
        PasteEvent::Keyboard(KeyboardAccess::Taken) => entered(settings),
        PasteEvent::Keyboard(KeyboardAccess::Missing) => refused(NO_KEYBOARD@),
        PasteEvent::Keyboard(KeyboardAccess::Unavailable(error)) => refused(
            "Failed to lock Enigo: "@ + error@,
        ),
        PasteEvent::Done(result) => finished(settings, phase, result),
        PasteEvent::Delivered(result) => delivered(settings, result),
    }
}

/// What is reported where the end was reached in `phase`, with `message` to say.
pub open spec fn reported(phase: PastePhase, message: Seq<char>) -> Result<(), Seq<char>> {
    if phase == (PastePhase::Finished { ok: true }) {
        Ok(())
    } else {
        Err(message)
    }
}

/// Bringing in a transcript.
pub struct Paste {
    pub settings: PasteSettings,
    /// The text that is brought in.
    pub text: String,
    pub phase: PastePhase,
    /// Why the text was not brought in.
    pub message: String,
}

impl Paste {
    /// A transcript that is about to be brought in.
    pub fn new(text: String, settings: PasteSettings) -> (r: Paste)
        ensures
            r.settings == settings,
            r.text@ == pasted_text(text@, settings.append_trailing_space),
            r.phase == PastePhase::TakeKeyboard,
            r.message@ == Seq::<char>::empty(),
    {
        let text: String = if settings.append_trailing_space {
            prefixed(text.as_str(), " ")
        } else {
            text
        };
        Paste { settings, text, phase: PastePhase::TakeKeyboard, message: String::new() }
    }

    /// More is to be done.
    fn go_on(&mut self, phase: PastePhase)
        ensures
            final(self).settings == old(self).settings,
            final(self).text == old(self).text,
            (final(self).phase, final(self).message@) == next_is(phase),
    {
        self.phase = phase;
        self.message = String::new();
    }

    /// The text was not brought in.
    fn refuse(&mut self, message: &str)
        ensures
            final(self).settings == old(self).settings,
            final(self).text == old(self).text,
            (final(self).phase, final(self).message@) == refused(message@),
    {
        self.phase = PastePhase::Finished { ok: false };
        self.message = message.to_owned();
    }

    /// What follows on an outcome that is no failure, after sending off or without.
    fn follow_up(&mut self, outcome: &ClipboardPasteOutcome, sent_off: bool)
        requires
            !(*outcome is Unconfirmed),
        ensures
            final(self).settings == old(self).settings,
            final(self).text == old(self).text,
            (final(self).phase, final(self).message@) == (if !(*outcome is Confirmed) {
                next_is(PastePhase::Finished { ok: true })
            } else if sent_off {
                copying(old(self).settings)
            } else {
                arrived(old(self).settings)
            }),
    {
        if !sent_off && should_send_auto_submit(
            self.settings.auto_submit,
            self.settings.paste_method,
            outcome,
        ) {
            self.go_on(PastePhase::Submit);
        } else if should_write_post_paste_clipboard(
            self.settings.clipboard_handling == ClipboardHandling::CopyToClipboard,
            outcome,
        ) {
            self.go_on(PastePhase::Copy);
        } else {
            self.go_on(PastePhase::Finished { ok: true });
        }
    }

    /// Brings the text in with the keyboard at hand.
    fn enter(&mut self)
        ensures
            final(self).settings == old(self).settings,
            final(self).text == old(self).text,
            (final(self).phase, final(self).message@) == entered(old(self).settings),
    {
        match self.settings.paste_method {
            PasteMethod::Nothing => self.follow_up(&ClipboardPasteOutcome::Confirmed, false),
            PasteMethod::Direct => self.go_on(PastePhase::TypeText),
            PasteMethod::ExternalScript => {
                let configured: bool = match &self.settings.external_script_path {
                    Some(path) => path.as_str().unicode_len() > 0,
                    None => false,
                };
                if configured {
                    self.go_on(PastePhase::RunScript);
                } else {
                    self.refuse(NO_SCRIPT);
                }
            },
            _ => self.go_on(PastePhase::Deliver),
        }
    }

    /// Takes note of what happened while doing what the phase asks for.
    pub fn advance(&mut self, event: PasteEvent)
        requires
            answers(old(self).phase, event),
        ensures
            final(self).settings == old(self).settings,
            final(self).text == old(self).text,
            (final(self).phase, final(self).message@) == advanced(
                old(self).settings,
                old(self).phase,
                event,
            ),
    {
        match event {
            PasteEvent::Keyboard(KeyboardAccess::Taken) => self.enter(),
            PasteEvent::Keyboard(KeyboardAccess::Missing) => self.refuse(NO_KEYBOARD),
            PasteEvent::Keyboard(KeyboardAccess::Unavailable(error)) => {
                let message: String = prefixed("Failed to lock Enigo: ", error.as_str());
                self.refuse(message.as_str());
            },
            PasteEvent::Delivered(Err(error)) => self.refuse(error.as_str()),
            PasteEvent::Delivered(Ok(outcome)) => {
                match outcome.failure_message() {
                    Some(message) => self.refuse(message),
                    None => self.follow_up(&outcome, false),
                }
            },
            PasteEvent::Done(Ok(_)) => match self.phase {
                PastePhase::Submit => self.follow_up(&ClipboardPasteOutcome::Confirmed, true),
                PastePhase::Copy => self.go_on(PastePhase::Finished { ok: true }),
                _ => self.follow_up(&ClipboardPasteOutcome::Confirmed, false),
            },
            PasteEvent::Done(Err(error)) => match self.phase {
                PastePhase::Copy => {
                    let message: String = prefixed("Failed to copy to clipboard: ", error.as_str());
                    self.refuse(message.as_str());
                },
                _ => self.refuse(error.as_str()),
            },
        }
    }

    /// What came of it, once it is over.
    pub fn result(self) -> (r: Result<(), String>)
        requires
            self.phase is Finished,
        ensures
            match self.phase {
                PastePhase::Finished { ok: true } => r is Ok,
                _ => r matches Err(m) && m@ == self.message@,
            },
            match reported(self.phase, self.message@) {
                Ok(_) => r is Ok,
                Err(message) => r matches Err(m) && m@ == message,
            },
    {
        match self.phase {
            PastePhase::Finished { ok } => {
                if ok {
                    Ok(())
                } else {
                    Err(self.message)
                }
            },
            _ => Err(self.message),
        }
    }
}

/// The message is sent off, and the text copied, only where it arrived: not where the
/// paste was merely sent, and not where it may have failed.
pub proof fn only_arrived_text_is_followed_up(
    settings: PasteSettings,
    result: Result<ClipboardPasteOutcome, String>,
)
    requires
        delivered(settings, result).0 is Submit || delivered(settings, result).0 is Copy,
    ensures
        result matches Ok(outcome) && outcome is Confirmed,
{
}

/// A paste that may have failed ends in its own message.
pub proof fn unconfirmed_paste_is_an_error(settings: PasteSettings, outcome: ClipboardPasteOutcome)
    requires
        outcome is Unconfirmed,
    ensures
        outcome matches ClipboardPasteOutcome::Unconfirmed(message) && delivered(
            settings,
            Ok(outcome),
        ) == refused(message@),
{
}

/// A paste that was merely sent is no error, and nothing follows on it.
pub proof fn dispatched_paste_is_no_error(settings: PasteSettings)
    ensures
        delivered(settings, Ok(ClipboardPasteOutcome::DispatchedUnverified)) == (
            PastePhase::Finished { ok: true },
            Seq::<char>::empty(),
        ),
{
}

/// Nothing is sent off unless the user wants that and something was brought in.
pub proof fn submitting_is_asked_for(settings: PasteSettings, phase: PastePhase, event: PasteEvent)
    requires
        answers(phase, event),
        advanced(settings, phase, event).0 is Submit,
    ensures
        settings.auto_submit,
        !(settings.paste_method is Nothing),
        !(phase is Submit) && !(phase is Copy),
{
}

/// How far a phase is from the end.
pub open spec fn steps_left(phase: PastePhase) -> nat {
    match phase {
        PastePhase::TakeKeyboard => 4,
        PastePhase::TypeText => 3,
        PastePhase::Deliver => 3,
        PastePhase::RunScript => 3,
        PastePhase::Submit => 2,
        PastePhase::Copy => 1,
        PastePhase::Finished { .. } => 0,
    }
}

/// Every event brings the whole closer to its end; so nothing is done twice.
pub proof fn paste_comes_to_an_end(settings: PasteSettings, phase: PastePhase, event: PasteEvent)
    requires
        answers(phase, event),
    ensures
        steps_left(advanced(settings, phase, event).0) < steps_left(phase),
{
}

} // verus!
