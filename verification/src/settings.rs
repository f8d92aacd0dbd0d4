//! What the user can choose about pasting.
use vstd::prelude::*;

verus! {

/// How text gets into the focused field.
#[derive(Debug, Clone, Copy, PartialEq, Eq, Structural)]
pub enum PasteMethod {
    CtrlV,
    /// By typing it.
    Direct,
    /// Not at all.
    Nothing,
    ShiftInsert,
    CtrlShiftV,
    /// By a program of the user's.
    ExternalScript,
}

impl PasteMethod {
    /// The method pastes from the clipboard by a key combination.
    pub open spec fn uses_combo(self) -> bool {
        self is CtrlV || self is CtrlShiftV || self is ShiftInsert
    }

    /// Whether the method pastes from the clipboard by a key combination.
    pub fn is_combo(self) -> (r: bool)
        ensures
            r == self.uses_combo(),
    {
        matches!(self, PasteMethod::CtrlV | PasteMethod::CtrlShiftV | PasteMethod::ShiftInsert)
    }
}

/// What becomes of the clipboard after pasting.
#[derive(Debug, Clone, Copy, PartialEq, Eq, Structural)]
pub enum ClipboardHandling {
    DontModify,
    CopyToClipboard,
}

/// The keys that send a message off.
#[derive(Debug, Clone, Copy, PartialEq, Eq, Structural)]
pub enum AutoSubmitKey {
    Enter,
    CtrlEnter,
    CmdEnter,
}

/// The program that types text on Linux.
#[derive(Debug, Clone, Copy, PartialEq, Eq, Structural)]
pub enum TypingTool {
    Auto,
    Wtype,
    Kwtype,
    Dotool,
    Ydotool,
    Xdotool,
}

} // verus!
