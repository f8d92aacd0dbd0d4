//! What came of a paste, what may follow on it, and when the clipboard is put back.
use crate::settings::{AutoSubmitKey, PasteMethod};
use crate::text::strings::{contains_text, has_text, same_text};
use vstd::prelude::*;

verus! {

/// What came of a paste through the clipboard.
#[derive(Debug, Clone, PartialEq, Eq)]
pub enum ClipboardPasteOutcome {
    /// The target took the text.
    Confirmed,
    /// The paste was sent, and nobody can tell what came of it.
    DispatchedUnverified,
    /// The text may not have arrived, for the given reason.
    Unconfirmed(String),
}

impl ClipboardPasteOutcome {
    /// Why the text may not have arrived.
    pub fn failure_message(&self) -> (r: Option<&str>)
        ensures
            match *self {
                ClipboardPasteOutcome::Unconfirmed(message) => r matches Some(m) && m@ == message@,
                _ => r is None,
            },
            match doubt(*self) {
                Some(message) => r matches Some(m) && m@ == message,
                None => r is None,
            },
    {
        match self {
            ClipboardPasteOutcome::Unconfirmed(message) => Some(message.as_str()),
            ClipboardPasteOutcome::Confirmed => None,
            ClipboardPasteOutcome::DispatchedUnverified => None,
        }
    }
}

/// How the clipboard is used on Linux.
#[derive(Debug, Clone, Copy, PartialEq, Eq, Structural)]
pub enum LinuxClipboardStrategy {
    /// Offer the text, see who asks for it, and put the clipboard back.
    VerifiedX11,
    /// Put the text there for good, and send the paste.
    WaylandPersistentDispatch,
}

/// How the clipboard is used in a session on Linux.
pub open spec fn strategy(is_wayland_session: bool) -> LinuxClipboardStrategy {
    if is_wayland_session {
        LinuxClipboardStrategy::WaylandPersistentDispatch
    } else {
        LinuxClipboardStrategy::VerifiedX11
    }
}

/// Whether the text is typed in place of a paste.
pub open spec fn goes_directly(is_macos: bool, method: PasteMethod) -> bool {
    is_macos && method.uses_combo()
}

/// Whether the transcript is left on the clipboard.
pub open spec fn leaves_copy(copy_to_clipboard: bool, outcome: ClipboardPasteOutcome) -> bool {
    copy_to_clipboard && outcome is Confirmed
}

/// What is said of a paste that cannot be told to have arrived.
pub open spec fn doubt(outcome: ClipboardPasteOutcome) -> Option<Seq<char>> {
    match outcome {
        ClipboardPasteOutcome::Unconfirmed(message) => Some(message@),
        _ => None,
    }
}

/// On Wayland nobody can tell who asks for the clipboard.
pub fn linux_clipboard_strategy(is_wayland_session: bool) -> (r: LinuxClipboardStrategy)
    ensures
        r == (if is_wayland_session {
            LinuxClipboardStrategy::WaylandPersistentDispatch
        } else {
            LinuxClipboardStrategy::VerifiedX11
        }),
        r == strategy(is_wayland_session),
{
    if is_wayland_session {
        LinuxClipboardStrategy::WaylandPersistentDispatch
    } else {
        LinuxClipboardStrategy::VerifiedX11
    }
}

/// What comes of a paste on Wayland.
pub fn wayland_dispatch_outcome() -> (r: ClipboardPasteOutcome)
    ensures
        r is DispatchedUnverified,
{
    ClipboardPasteOutcome::DispatchedUnverified
}

/// Whether the text is typed in place of a paste from the clipboard: on macOS, where
/// any text can be typed.
pub fn should_use_direct_text_transport(is_macos: bool, paste_method: &PasteMethod) -> (r: bool)
    ensures
        r == (is_macos && paste_method.uses_combo()),
        r == goes_directly(is_macos, *paste_method),
{
    is_macos && paste_method.is_combo()
}

/// What to do about putting the clipboard back.
#[derive(Debug, Clone, Copy, PartialEq, Eq, Structural)]
pub enum ClipboardRestoreDecision {
    Restore,
    /// Something newer is on the clipboard.
    ClipboardChanged,
    /// The transcript is not on the clipboard any more.
    TranscriptUnavailable,
}

/// What to do about putting the clipboard back, by the text that is on it and by
/// whether something else is.
pub open spec fn restoring(
    current: Option<Seq<char>>,
    transcript: Seq<char>,
    non_text: bool,
) -> ClipboardRestoreDecision {
    match current {
        Some(text) => if text == transcript {
            ClipboardRestoreDecision::Restore
        } else {
            ClipboardRestoreDecision::ClipboardChanged
        },
        None => if non_text {
            ClipboardRestoreDecision::ClipboardChanged
        } else {
            ClipboardRestoreDecision::TranscriptUnavailable
        },
    }
}

/// The clipboard is put back only where it still holds the transcript.
pub fn clipboard_restore_decision(
    current_text: Option<&str>,
    transcript: &str,
    current_has_non_text_content: bool,
) -> (r: ClipboardRestoreDecision)
    ensures
        r is Restore <==> (current_text matches Some(current) && current@ == transcript@),
        r is TranscriptUnavailable <==> current_text is None && !current_has_non_text_content,
        r == restoring(
            match current_text {
                Some(text) => Some(text@),
                None => None,
            },
            transcript@,
            current_has_non_text_content,
        ),
{
    match current_text {
        Some(current) => {
            if same_text(current, transcript) {
                ClipboardRestoreDecision::Restore
            } else {
                ClipboardRestoreDecision::ClipboardChanged
            }
        },
        None => {
            if current_has_non_text_content {
                ClipboardRestoreDecision::ClipboardChanged
            } else {
                ClipboardRestoreDecision::TranscriptUnavailable
            }
        },
    }
}

/// What was on the clipboard before.
pub enum SavedClipboard<I> {
    Text(String),
    Image(I),
    Empty,
}

/// `r` is what was on the clipboard, by its text and its image.
pub open spec fn saves<I>(text: Option<String>, image: Option<I>, r: SavedClipboard<I>) -> bool {
    match text {
        Some(t) if t@.len() > 0 => r matches SavedClipboard::Text(s) && s@ == t@,
        _ => match image {
            Some(i) => r matches SavedClipboard::Image(j) && j == i,
            None => r is Empty,
        },
    }
}

/// What was on the clipboard, by its text and its image: the text unless it is
/// empty, else the image, else nothing.
pub fn saved_clipboard<I>(text: Option<String>, image: Option<I>) -> (r: SavedClipboard<I>)
    ensures
        match text {
            Some(t) if t@.len() > 0 => r matches SavedClipboard::Text(s) && s@ == t@,
            _ => match image {
                Some(i) => r matches SavedClipboard::Image(j) && j == i,
                None => r is Empty,
            },
        },
        saves(text, image, r),
{
    if let Some(text) = text {
        if text.as_str().unicode_len() > 0 {
            return SavedClipboard::Text(text);
        }
    }
    match image {
        Some(image) => SavedClipboard::Image(image),
        None => SavedClipboard::Empty,
    }
}

/// How to put the clipboard back.
pub enum RestoreAction<I> {
    WriteText(String),
    /// Write the text with `wl-copy`.
    WriteTextWithTool(String),
    WriteImage(I),
    Clear,
}

/// `r` puts back what was on the clipboard.
pub open spec fn puts_back<I>(
    saved: SavedClipboard<I>,
    with_tool: bool,
    r: RestoreAction<I>,
) -> bool {
    match saved {
        SavedClipboard::Text(text) => if with_tool {
            r matches RestoreAction::WriteTextWithTool(t) && t@ == text@
        } else {
            r matches RestoreAction::WriteText(t) && t@ == text@
        },
        SavedClipboard::Image(image) => r matches RestoreAction::WriteImage(i) && i == image,
        SavedClipboard::Empty => r is Clear,
    }
}

/// How to put back what was on the clipboard. On Wayland `wl-copy` writes text where
/// there is one.
pub fn restore_action<I>(saved: SavedClipboard<I>, wayland: bool, wl_copy_available: bool) -> (r:
    RestoreAction<I>)
    ensures
        match saved {
            SavedClipboard::Text(text) => if wayland && wl_copy_available {
                r matches RestoreAction::WriteTextWithTool(t) && t@ == text@
            } else {
                r matches RestoreAction::WriteText(t) && t@ == text@
            },
            SavedClipboard::Image(image) => r matches RestoreAction::WriteImage(i) && i == image,
            SavedClipboard::Empty => r is Clear,
        },
        puts_back(saved, wayland && wl_copy_available, r),
{
    match saved {
        SavedClipboard::Text(text) => {
            if wayland && wl_copy_available {
                RestoreAction::WriteTextWithTool(text)
            } else {
                RestoreAction::WriteText(text)
            }
        },
        SavedClipboard::Image(image) => RestoreAction::WriteImage(image),
        SavedClipboard::Empty => RestoreAction::Clear,
    }
}

/// Whether the contents of the focused field show that the transcript was pasted:
/// they changed, and hold it now.
pub fn macos_paste_observed(before: &str, after: &str, transcript: &str) -> (r: bool)
    ensures
        r == (before@ != after@ && contains_text(after@, transcript@)),
        r == shows_paste(before@, after@, transcript@),
{
    !same_text(before, after) && has_text(after, transcript)
}

/// The message is to be sent off.
pub open spec fn sends_off(
    auto_submit: bool,
    paste_method: PasteMethod,
    outcome: ClipboardPasteOutcome,
) -> bool {
    auto_submit && !(paste_method is Nothing) && outcome is Confirmed
}

/// The contents of the focused field show that the transcript was pasted.
pub open spec fn shows_paste(before: Seq<char>, after: Seq<char>, transcript: Seq<char>) -> bool {
    before != after && contains_text(after, transcript)
}

/// Whether the message is to be sent off: if that is wanted, something was pasted, and
/// it arrived.
pub fn should_send_auto_submit(
    auto_submit: bool,
    paste_method: PasteMethod,
    outcome: &ClipboardPasteOutcome,
) -> (r: bool)
    ensures
        r == (auto_submit && !(paste_method is Nothing) && *outcome is Confirmed),
        r == sends_off(auto_submit, paste_method, *outcome),
{
    auto_submit && paste_method != PasteMethod::Nothing && matches!(
        outcome,
        ClipboardPasteOutcome::Confirmed
    )
}

/// Whether the transcript is to be left on the clipboard: if that is wanted, and it
/// arrived.
pub fn should_write_post_paste_clipboard(
    copy_to_clipboard: bool,
    outcome: &ClipboardPasteOutcome,
) -> (r: bool)
    ensures
        r == (copy_to_clipboard && *outcome is Confirmed),
        r == leaves_copy(copy_to_clipboard, *outcome),
{
    copy_to_clipboard && matches!(outcome, ClipboardPasteOutcome::Confirmed)
}

/// The keys that take part in sending a message off.
#[derive(Debug, Clone, Copy, PartialEq, Eq, Structural)]
pub enum SubmitKey {
    Return,
    Control,
    Meta,
}

/// A key going down or up.
#[derive(Debug, Clone, Copy, PartialEq, Eq, Structural)]
pub struct KeyStroke {
    pub key: SubmitKey,
    pub press: bool,
}

/// A key going down.
pub open spec fn down(key: SubmitKey) -> KeyStroke {
    KeyStroke { key, press: true }
}

/// A key going up.
pub open spec fn up(key: SubmitKey) -> KeyStroke {
    KeyStroke { key, press: false }
}

/// The strokes that send a message off: the return key, inside its modifier.
pub open spec fn submit_sequence(key: AutoSubmitKey) -> Seq<KeyStroke> {
    match key {
        AutoSubmitKey::Enter => seq![down(SubmitKey::Return), up(SubmitKey::Return)],
        AutoSubmitKey::CtrlEnter => seq![
            down(SubmitKey::Control),
            down(SubmitKey::Return),
            up(SubmitKey::Return),
            up(SubmitKey::Control),
        ],
        AutoSubmitKey::CmdEnter => seq![
            down(SubmitKey::Meta),
            down(SubmitKey::Return),
            up(SubmitKey::Return),
            up(SubmitKey::Meta),
        ],
    }
}

/// The strokes that send a message off.
pub fn submit_strokes(key: AutoSubmitKey) -> (r: Vec<KeyStroke>)
    ensures
        r@ == submit_sequence(key),
{
    let mut strokes: Vec<KeyStroke> = Vec::new();
    match key {
        AutoSubmitKey::Enter => {},
        AutoSubmitKey::CtrlEnter => {
            strokes.push(KeyStroke { key: SubmitKey::Control, press: true });
        },
        AutoSubmitKey::CmdEnter => {
            strokes.push(KeyStroke { key: SubmitKey::Meta, press: true });
        },
    }
    strokes.push(KeyStroke { key: SubmitKey::Return, press: true });
    strokes.push(KeyStroke { key: SubmitKey::Return, press: false });
    match key {
        AutoSubmitKey::Enter => {},
        AutoSubmitKey::CtrlEnter => {
            strokes.push(KeyStroke { key: SubmitKey::Control, press: false });
        },
        AutoSubmitKey::CmdEnter => {
            strokes.push(KeyStroke { key: SubmitKey::Meta, press: false });
        },
    }
    assert(strokes@ =~= submit_sequence(key));
    strokes
}

/// Every key that goes down goes up again, and the one that went down last first.
pub proof fn submit_releases_every_key(key: AutoSubmitKey, i: int)
    requires
        0 <= i < submit_sequence(key).len(),
    ensures
        ({
            let strokes = submit_sequence(key);
            let mirror = strokes[strokes.len() - 1 - i];
            mirror.key == strokes[i].key && mirror.press == !strokes[i].press
        }),
{
}

/// What a key is called.
pub open spec fn key_title(key: SubmitKey) -> Seq<char> {
    match key {
        SubmitKey::Return => "Return"@,
        SubmitKey::Control => "Control"@,
        SubmitKey::Meta => "Meta/Cmd"@,
    }
}

/// What is said where a stroke fails because of `error`.
pub open spec fn stroke_message(stroke: KeyStroke, error: Seq<char>) -> Seq<char> {
    (if stroke.press {
        "Failed to press "@
    } else {
        "Failed to release "@
    }) + key_title(stroke.key) + " key: "@ + error
}

/// What is said where a stroke fails because of `error`.
pub fn stroke_error(stroke: KeyStroke, error: &str) -> (r: String)
    ensures
        r@ == stroke_message(stroke, error@),
{
    let mut message: String = String::new();
    if stroke.press {
        message.push_str("Failed to press ");
    } else {
        message.push_str("Failed to release ");
    }
    match stroke.key {
        SubmitKey::Return => message.push_str("Return"),
        SubmitKey::Control => message.push_str("Control"),
        SubmitKey::Meta => message.push_str("Meta/Cmd"),
    }
    message.push_str(" key: ");
    message.push_str(error);
    assert(message@ =~= stroke_message(stroke, error@));
    message
}

} // verus!
