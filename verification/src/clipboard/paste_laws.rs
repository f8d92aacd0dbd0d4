//! What holds of bringing in a transcript, from the keyboard to the copy.
use super::delivery::{comes_to, DeliveryPhase, Verdict};
use super::outcome::{
    doubt, goes_directly, leaves_copy, puts_back, restoring, saves, sends_off, shows_paste,
    strategy, stroke_message, submit_sequence, ClipboardPasteOutcome, KeyStroke,
    LinuxClipboardStrategy, RestoreAction, SavedClipboard, SubmitKey,
};
use super::paste::{
    advanced, answers, delivered, pasted_text, reported, KeyboardAccess, PasteEvent, PastePhase,
    PasteSettings,
};
use crate::settings::{AutoSubmitKey, ClipboardHandling, PasteMethod};
use crate::text::strings::occurs_at;
use vstd::prelude::*;

verus! {

/// An event by which the text arrived in the field.
pub open spec fn arrives(phase: PastePhase, event: PasteEvent) -> bool {
    match event {
        PasteEvent::Done(Ok(_)) => phase is TypeText || phase is RunScript,
        PasteEvent::Delivered(Ok(outcome)) => phase is Deliver && outcome is Confirmed,
        _ => false,
    }
}

/// The message is sent off wherever the text arrived and the user wants that, however
/// it was brought in.
pub proof fn arrived_text_is_sent_off(
    settings: PasteSettings,
    phase: PastePhase,
    event: PasteEvent,
)
    requires
        arrives(phase, event),
        settings.auto_submit,
        settings.paste_method != PasteMethod::Nothing,
    ensures
        advanced(settings, phase, event) == (PastePhase::Submit, Seq::<char>::empty()),
{
}

/// Where nothing is to be sent off, or it was, the text is copied exactly if the user
/// wants that, and else the paste is over and went well.
pub proof fn arrived_text_is_copied(
    settings: PasteSettings,
    phase: PastePhase,
    event: PasteEvent,
)
    requires
        (arrives(phase, event) && !settings.auto_submit) || (phase is Submit && (event
            matches PasteEvent::Done(result) && result is Ok)),
    ensures
        settings.clipboard_handling == ClipboardHandling::CopyToClipboard ==> advanced(
            settings,
            phase,
            event,
        ).0 is Copy,
        settings.clipboard_handling != ClipboardHandling::CopyToClipboard ==> advanced(
            settings,
            phase,
            event,
        ).0 == (PastePhase::Finished { ok: true }),
{
}

/// It makes no difference to what follows how the text arrived.
pub proof fn ways_in_are_alike(
    settings: PasteSettings,
    phase: PastePhase,
    event: PasteEvent,
    other_phase: PastePhase,
    other_event: PasteEvent,
)
    requires
        arrives(phase, event),
        arrives(other_phase, other_event),
    ensures
        advanced(settings, phase, event) == advanced(settings, other_phase, other_event),
{
}

/// Each method brings the text in by its own way, and the method that does nothing
/// brings nothing in and sends nothing off.
pub proof fn method_says_the_way(settings: PasteSettings)
    ensures
        ({
            let event = PasteEvent::Keyboard(KeyboardAccess::Taken);
            let (next, message) = advanced(settings, PastePhase::TakeKeyboard, event);
            match settings.paste_method {
                PasteMethod::Direct => next is TypeText,
                PasteMethod::CtrlV => next is Deliver,
                PasteMethod::CtrlShiftV => next is Deliver,
                PasteMethod::ShiftInsert => next is Deliver,
                PasteMethod::ExternalScript => match settings.external_script_path {
                    Some(path) if path@.len() > 0 => next is RunScript,
                    _ => next == (PastePhase::Finished { ok: false }) && message
                        == "External script path is not configured"@,
                },
                PasteMethod::Nothing => next == (if settings.clipboard_handling
                    == ClipboardHandling::CopyToClipboard {
                    PastePhase::Copy
                } else {
                    PastePhase::Finished { ok: true }
                }),
            }
        }),
{
}

/// An event that says why something could not be done.
pub open spec fn complaint(phase: PastePhase, event: PasteEvent) -> Option<Seq<char>> {
    match event {
        PasteEvent::Done(Err(error)) => Some(
            if phase is Copy {
                "Failed to copy to clipboard: "@ + error@
            } else {
                error@
            },
        ),
        PasteEvent::Delivered(Err(error)) => Some(error@),
        PasteEvent::Delivered(Ok(ClipboardPasteOutcome::Unconfirmed(reason))) => Some(reason@),
        PasteEvent::Keyboard(KeyboardAccess::Missing) => Some("Enigo state not initialized"@),
        PasteEvent::Keyboard(KeyboardAccess::Unavailable(error)) => Some(
            "Failed to lock Enigo: "@ + error@,
        ),
        _ => None,
    }
}

/// Whatever fails ends the paste at once with its reason, and what does not fail ends
/// in no error, but for a script that was not chosen.
pub proof fn failure_ends_the_paste(
    settings: PasteSettings,
    phase: PastePhase,
    event: PasteEvent,
)
    requires
        answers(phase, event),
    ensures
        complaint(phase, event) matches Some(reason) ==> advanced(settings, phase, event) == (
            PastePhase::Finished { ok: false },
            reason,
        ),
        complaint(phase, event) is None && advanced(settings, phase, event).0 == (
        PastePhase::Finished { ok: false }) ==> phase is TakeKeyboard && settings.paste_method
            is ExternalScript && advanced(settings, phase, event).1
            == "External script path is not configured"@,
        advanced(settings, phase, event).0 != (PastePhase::Finished { ok: false }) ==> advanced(
            settings,
            phase,
            event,
        ).1 == Seq::<char>::empty(),
{
}

/// Copying is the last thing that is done.
pub proof fn copying_comes_last(settings: PasteSettings)
    ensures
        advanced(settings, PastePhase::Copy, PasteEvent::Done(Ok(()))) == (
            PastePhase::Finished { ok: true },
            Seq::<char>::empty(),
        ),
{
}

/// A paste that was merely sent off into the unknown is neither followed up nor held
/// to be a failure.
pub proof fn unverified_paste_is_left_alone(settings: PasteSettings)
    ensures
        advanced(
            settings,
            PastePhase::Deliver,
            PasteEvent::Delivered(Ok(ClipboardPasteOutcome::DispatchedUnverified)),
        ).0 == (PastePhase::Finished { ok: true }),
{
}

/// The text that is brought in is the transcript, with one space behind it exactly
/// where the user wants one.
pub proof fn transcript_is_brought_in_whole(text: Seq<char>, append_trailing_space: bool)
    ensures
        pasted_text(text, append_trailing_space).take(text.len() as int) == text,
        pasted_text(text, append_trailing_space).skip(text.len() as int) == (
        if append_trailing_space {
            seq![' ']
        } else {
            Seq::empty()
        }),
{
    reveal_strlit(" ");
    let r = pasted_text(text, append_trailing_space);
    assert(r.take(text.len() as int) =~= text);
    assert(r.skip(text.len() as int) =~= (if append_trailing_space {
        seq![' ']
    } else {
        Seq::empty()
    }));
}

/// What is reported is a success exactly where the paste ended well, and else what
/// there is to say.
pub proof fn failure_is_reported(message: Seq<char>)
    ensures
        reported(PastePhase::Finished { ok: true }, message) is Ok,
        reported(PastePhase::Finished { ok: false }, message) == Err::<(), Seq<char>>(message),
{
}

/// What became of the clipboard paste decides what follows: only an arrival is
/// followed up, and a failure or a doubt is reported in its own words.
pub proof fn delivery_decides_what_follows(
    settings: PasteSettings,
    verdict: Verdict,
    message: Seq<char>,
    r: Result<ClipboardPasteOutcome, String>,
)
    requires
        comes_to(DeliveryPhase::Finished(verdict), message, r),
    ensures
        ({
            let next = delivered(settings, r);
            match verdict {
                Verdict::Confirmed => arrives(PastePhase::Deliver, PasteEvent::Delivered(r)),
                Verdict::Dispatched => next.0 == (PastePhase::Finished { ok: true }),
                Verdict::Unconfirmed => next == (PastePhase::Finished { ok: false }, message),
                Verdict::Failed => next == (PastePhase::Finished { ok: false }, message),
            }
        }),
{
}

/// Sending off takes three things, and lacks for nothing where they are there: the
/// user's wish, a method that brings text in, and the arrival of the text.
pub proof fn sending_off_takes_three(
    auto_submit: bool,
    method: PasteMethod,
    outcome: ClipboardPasteOutcome,
)
    ensures
        sends_off(auto_submit, method, outcome) <==> auto_submit && method != PasteMethod::Nothing
            && outcome is Confirmed,
{
}

/// Something that came to the clipboard since the paste is never overwritten, and
/// where the transcript still is there it always makes way for what was before.
pub proof fn newer_clipboard_stays(
    current: Option<Seq<char>>,
    transcript: Seq<char>,
    non_text: bool,
)
    ensures
        restoring(current, transcript, non_text) is Restore <==> current == Some(transcript),
        (current matches Some(text) && text != transcript) ==> restoring(
            current,
            transcript,
            non_text,
        ) is ClipboardChanged,
        current is None && non_text ==> restoring(current, transcript, non_text)
            is ClipboardChanged,
        current is None && !non_text ==> restoring(current, transcript, non_text)
            is TranscriptUnavailable,
{
}

/// What was on the clipboard is what comes back: its text where it had any, else its
/// image, and an empty clipboard becomes empty again.
pub proof fn clipboard_comes_back<I>(
    text: Option<String>,
    image: Option<I>,
    saved: SavedClipboard<I>,
    with_tool: bool,
    action: RestoreAction<I>,
)
    requires
        saves(text, image, saved),
        puts_back(saved, with_tool, action),
    ensures
        (text matches Some(t) && t@.len() > 0) ==> (match action {
            RestoreAction::WriteText(w) => w@ == text->0@ && !with_tool,
            RestoreAction::WriteTextWithTool(w) => w@ == text->0@ && with_tool,
            _ => false,
        }),
        !(text matches Some(t) && t@.len() > 0) ==> (match image {
            Some(i) => action matches RestoreAction::WriteImage(w) && w == i,
            None => action is Clear,
        }),
{
}

/// A paste shows in a field exactly where its contents changed and hold the
/// transcript now.
pub proof fn paste_shows_as_change(
    before: Seq<char>,
    after: Seq<char>,
    transcript: Seq<char>,
    at: int,
)
    ensures
        !shows_paste(after, after, transcript),
        before != after && occurs_at(after, transcript, at) ==> shows_paste(
            before,
            after,
            transcript,
        ),
        (forall|i: int| !#[trigger] occurs_at(after, transcript, i)) ==> !shows_paste(
            before,
            after,
            transcript,
        ),
{
}

/// A stroke that fails is told with its key, its direction and the reason.
pub proof fn failed_stroke_is_told(stroke: KeyStroke, error: Seq<char>)
    ensures
        stroke_message(stroke, error) == (if stroke.press {
            "Failed to press "@
        } else {
            "Failed to release "@
        }) + (match stroke.key {
            SubmitKey::Return => "Return"@,
            SubmitKey::Control => "Control"@,
            SubmitKey::Meta => "Meta/Cmd"@,
        }) + " key: "@ + error,
{
}

/// The keys that send a message off are the return key going down and up, with the
/// modifier of the user's choice held around it.
pub proof fn submit_presses_return(key: AutoSubmitKey)
    ensures
        ({
            let strokes = submit_sequence(key);
            let held = match key {
                AutoSubmitKey::Enter => None,
                AutoSubmitKey::CtrlEnter => Some(SubmitKey::Control),
                AutoSubmitKey::CmdEnter => Some(SubmitKey::Meta),
            };
            let lead: int = if held is Some {
                1
            } else {
                0
            };
            &&& strokes.len() == 2 + 2 * lead
            &&& strokes[lead] == (KeyStroke { key: SubmitKey::Return, press: true })
            &&& strokes[lead + 1] == (KeyStroke { key: SubmitKey::Return, press: false })
            &&& held matches Some(modifier) ==> strokes[0] == (KeyStroke {
                key: modifier,
                press: true,
            }) && strokes[3] == (KeyStroke { key: modifier, press: false })
        }),
{
}

/// On Wayland the text stays on the clipboard, elsewhere the one who takes it is
/// watched. Text is typed in place of a paste by keys on macOS and nowhere else.
pub proof fn desktop_decides_how_text_travels(method: PasteMethod)
    ensures
        strategy(true) == LinuxClipboardStrategy::WaylandPersistentDispatch,
        strategy(false) == LinuxClipboardStrategy::VerifiedX11,
        !goes_directly(false, method),
        goes_directly(true, method) <==> method is CtrlV || method is CtrlShiftV
            || method is ShiftInsert,
{
}

/// A copy is left where one is wanted and the text is known to have arrived. There is
/// something to say of a paste exactly where that is in doubt.
pub proof fn outcome_decides_copy_and_message(copy: bool, outcome: ClipboardPasteOutcome)
    ensures
        leaves_copy(copy, outcome) ==> copy && doubt(outcome) is None,
        !leaves_copy(copy, ClipboardPasteOutcome::DispatchedUnverified),
        leaves_copy(true, ClipboardPasteOutcome::Confirmed),
        !leaves_copy(false, outcome),
        doubt(ClipboardPasteOutcome::DispatchedUnverified) is None,
        outcome matches ClipboardPasteOutcome::Unconfirmed(message) ==> doubt(outcome) == Some(
            message@,
        ) && !leaves_copy(copy, outcome),
{
}

} // verus!
