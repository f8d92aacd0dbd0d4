//! Keys, modifiers and what pressing a key means for a typing session.
use vstd::prelude::*;

verus! {

/// Keys of a keyboard and buttons of a mouse.
#[derive(Debug, Clone, Copy, PartialEq, Eq, Structural)]
pub enum Key {
    A,
    B,
    C,
    D,
    E,
    F,
    G,
    H,
    I,
    J,
    K,
    L,
    M,
    N,
    O,
    P,
    Q,
    R,
    S,
    T,
    U,
    V,
    W,
    X,
    Y,
    Z,
    Num0,
    Num1,
    Num2,
    Num3,
    Num4,
    Num5,
    Num6,
    Num7,
    Num8,
    Num9,
    PlayPause,
    Stop,
    PrevTrack,
    NextTrack,
    F1,
    F2,
    F3,
    F4,
    F5,
    F6,
    F7,
    F8,
    F9,
    F10,
    F11,
    F12,
    F13,
    F14,
    F15,
    F16,
    F17,
    F18,
    F19,
    F20,
    F21,
    F22,
    F23,
    F24,
    Space,
    Return,
    Tab,
    Escape,
    Delete,
    ForwardDelete,
    Insert,
    Pause,
    Home,
    End,
    PageUp,
    PageDown,
    LeftArrow,
    RightArrow,
    UpArrow,
    DownArrow,
    Minus,
    Equal,
    LeftBracket,
    RightBracket,
    Backslash,
    Semicolon,
    Quote,
    Comma,
    Period,
    Slash,
    Grave,
    Section,
    JisYen,
    JisUnderscore,
    JisEisu,
    JisKana,
    Keypad0,
    Keypad1,
    Keypad2,
    Keypad3,
    Keypad4,
    Keypad5,
    Keypad6,
    Keypad7,
    Keypad8,
    Keypad9,
    KeypadDecimal,
    KeypadMultiply,
    KeypadPlus,
    KeypadClear,
    KeypadDivide,
    KeypadEnter,
    KeypadMinus,
    KeypadEquals,
    KeypadComma,
    CapsLock,
    ScrollLock,
    NumLock,
    PrintScreen,
    ContextMenu,
    Dictation,
    MouseLeft,
    MouseRight,
    MouseMiddle,
    MouseX1,
    MouseX2,
}

/// The left command key.
pub const CMD_LEFT: u32 = 0x1;

/// The left shift key.
pub const SHIFT_LEFT: u32 = 0x2;

/// The left control key.
pub const CTRL_LEFT: u32 = 0x4;

/// The left option key.
pub const OPT_LEFT: u32 = 0x8;

/// The function key.
pub const FN: u32 = 0x10;

/// The right command key.
pub const CMD_RIGHT: u32 = 0x20;

/// The right shift key.
pub const SHIFT_RIGHT: u32 = 0x40;

/// The right control key.
pub const CTRL_RIGHT: u32 = 0x80;

/// The right option key.
pub const OPT_RIGHT: u32 = 0x100;

/// Both command keys.
pub const CMD: u32 = 0x21;

/// Both shift keys.
pub const SHIFT: u32 = 0x42;

/// Both control keys.
pub const CTRL: u32 = 0x84;

/// Both option keys.
pub const OPT: u32 = 0x108;

/// The modifiers that make a key press a shortcut on every system.
pub const SHORTCUT: u32 = 0xB5;

/// The modifiers held, one bit each.
#[derive(Debug, Clone, Copy, PartialEq, Eq, Structural)]
pub struct Modifiers {
    pub bits: u32,
}

impl Modifiers {
    /// No modifier.
    pub fn empty() -> (r: Modifiers)
        ensures
            r.bits == 0,
    {
        Modifiers { bits: 0 }
    }

    /// The modifiers with the given bits.
    pub fn of(bits: u32) -> (r: Modifiers)
        ensures
            r.bits == bits,
    {
        Modifiers { bits }
    }

    /// All of the modifiers in `other` are held.
    pub open spec fn all_of(self, other: u32) -> bool {
        self.bits & other == other
    }

    /// One of the modifiers in `other` is held.
    pub open spec fn any_of(self, other: u32) -> bool {
        self.bits & other != 0
    }

    /// Whether all of the modifiers in `other` are held.
    pub fn contains(self, other: u32) -> (r: bool)
        ensures
            r == self.all_of(other),
    {
        self.bits & other == other
    }

    /// Whether one of the modifiers in `other` is held.
    pub fn intersects(self, other: u32) -> (r: bool)
        ensures
            r == self.any_of(other),
    {
        self.bits & other != 0
    }
}

/// A key going down or up.
#[derive(Debug, Clone, Copy, PartialEq, Eq, Structural)]
pub struct KeyEvent {
    pub modifiers: Modifiers,
    /// The key, or none where only modifiers changed.
    pub key: Option<Key>,
    pub is_key_down: bool,
    pub changed_modifier: Option<Modifiers>,
}

/// What a key press means for a typing session.
#[derive(Debug, Clone, Copy, PartialEq, Eq, Structural)]
pub enum KeyKind {
    /// It changes the text.
    Typing,
    /// It sends the text off.
    Submit,
    /// Anything else.
    Other,
}

/// Keys that end a message.
pub open spec fn enter(key: Key) -> bool {
    key is Return || key is KeypadEnter
}

/// Keys that change the text.
pub open spec fn text_key(key: Key) -> bool {
    match key {
        Key::A | Key::B | Key::C | Key::D | Key::E | Key::F | Key::G | Key::H | Key::I | Key::J
        | Key::K | Key::L | Key::M | Key::N | Key::O | Key::P | Key::Q | Key::R | Key::S | Key::T
        | Key::U | Key::V | Key::W | Key::X | Key::Y | Key::Z | Key::Num0 | Key::Num1 | Key::Num2
        | Key::Num3 | Key::Num4 | Key::Num5 | Key::Num6 | Key::Num7 | Key::Num8 | Key::Num9
        | Key::Space | Key::Delete | Key::ForwardDelete | Key::Minus | Key::Equal
        | Key::LeftBracket | Key::RightBracket | Key::Backslash | Key::Semicolon | Key::Quote
        | Key::Comma | Key::Period | Key::Slash | Key::Grave | Key::Section | Key::JisYen
        | Key::JisUnderscore | Key::JisEisu | Key::JisKana | Key::Keypad0 | Key::Keypad1
        | Key::Keypad2 | Key::Keypad3 | Key::Keypad4 | Key::Keypad5 | Key::Keypad6 | Key::Keypad7
        | Key::Keypad8 | Key::Keypad9 | Key::KeypadDecimal | Key::KeypadMultiply
        | Key::KeypadPlus | Key::KeypadDivide | Key::KeypadMinus | Key::KeypadEquals
        | Key::KeypadComma => true,
        _ => false,
    }
}

/// Modifiers that make a key press a shortcut. The right option key alone types
/// characters except on macOS.
pub open spec fn shortcut(modifiers: Modifiers, macos: bool) -> bool {
    modifiers.any_of(SHORTCUT) || (if macos {
        modifiers.any_of(OPT)
    } else {
        modifiers.bits & OPT != 0 && modifiers.bits & OPT != OPT_RIGHT
    })
}

/// What pressing `key` with `modifiers` means.
pub open spec fn kind_of(key: Key, modifiers: Modifiers, macos: bool) -> KeyKind {
    if enter(key) {
        if modifiers.all_of(SHIFT) && !shortcut(modifiers, macos) {
            KeyKind::Typing
        } else {
            KeyKind::Submit
        }
    } else if text_key(key) && !shortcut(modifiers, macos) {
        KeyKind::Typing
    } else {
        KeyKind::Other
    }
}

/// Whether the modifiers make a key press a shortcut.
pub fn has_shortcut_modifiers(modifiers: Modifiers, macos: bool) -> (r: bool)
    ensures
        r == shortcut(modifiers, macos),
{
    if modifiers.intersects(CMD | CTRL | FN) {
        assert(CMD | CTRL | FN == SHORTCUT) by (bit_vector);
        return true;
    }
    assert(CMD | CTRL | FN == SHORTCUT) by (bit_vector);
    if macos {
        modifiers.intersects(OPT)
    } else {
        let option: u32 = modifiers.bits & OPT;
        option != 0 && option != OPT_RIGHT
    }
}

/// What pressing a key means.
pub fn classify_key(key: Key, modifiers: Modifiers, macos: bool) -> (r: KeyKind)
    ensures
        r == kind_of(key, modifiers, macos),
{
    if matches!(key, Key::Return | Key::KeypadEnter) {
        if modifiers.contains(SHIFT) && !has_shortcut_modifiers(modifiers, macos) {
            return KeyKind::Typing;
        }
        return KeyKind::Submit;
    }
    if has_shortcut_modifiers(modifiers, macos) {
        return KeyKind::Other;
    }
    if is_text_key(key) {
        KeyKind::Typing
    } else {
        KeyKind::Other
    }
}

/// Whether a key changes the text.
fn is_text_key(key: Key) -> (r: bool)
    ensures
        r == text_key(key),
{
    matches!(
        key,
        Key::A | Key::B | Key::C | Key::D | Key::E | Key::F | Key::G | Key::H | Key::I | Key::J
        | Key::K | Key::L | Key::M | Key::N | Key::O | Key::P | Key::Q | Key::R | Key::S | Key::T
        | Key::U | Key::V | Key::W | Key::X | Key::Y | Key::Z | Key::Num0 | Key::Num1 | Key::Num2
        | Key::Num3 | Key::Num4 | Key::Num5 | Key::Num6 | Key::Num7 | Key::Num8 | Key::Num9
        | Key::Space | Key::Delete | Key::ForwardDelete | Key::Minus | Key::Equal
        | Key::LeftBracket | Key::RightBracket | Key::Backslash | Key::Semicolon | Key::Quote
        | Key::Comma | Key::Period | Key::Slash | Key::Grave | Key::Section | Key::JisYen
        | Key::JisUnderscore | Key::JisEisu | Key::JisKana | Key::Keypad0 | Key::Keypad1
        | Key::Keypad2 | Key::Keypad3 | Key::Keypad4 | Key::Keypad5 | Key::Keypad6 | Key::Keypad7
        | Key::Keypad8 | Key::Keypad9 | Key::KeypadDecimal | Key::KeypadMultiply
        | Key::KeypadPlus | Key::KeypadDivide | Key::KeypadMinus | Key::KeypadEquals
        | Key::KeypadComma
    )
}

/// The keys that are held down.
pub struct PressedKeys {
    pub keys: Vec<Key>,
}

impl View for PressedKeys {
    type V = Set<Key>;

    open spec fn view(&self) -> Set<Key> {
        self.keys@.to_set()
    }
}

impl PressedKeys {
    /// No key is held twice.
    pub open spec fn well_formed(self) -> bool {
        self.keys@.no_duplicates()
    }

    /// No key is held.
    pub fn new() -> (r: PressedKeys)
        ensures
            r.well_formed(),
            r@ == Set::<Key>::empty(),
    {
        let r: PressedKeys = PressedKeys { keys: Vec::new() };
        assert(r.keys@.to_set() =~= Set::<Key>::empty());
        r
    }

    /// The position of a key among those held, or their number where it is not.
    fn position(&self, key: Key) -> (r: usize)
        ensures
            r <= self.keys@.len(),
            r < self.keys@.len() ==> self.keys@[r as int] == key,
            r == self.keys@.len() ==> !self.keys@.contains(key),
    {
        let mut i: usize = 0;
        while i < self.keys.len()
            invariant
                i <= self.keys@.len(),
                forall|k: int| 0 <= k < i ==> self.keys@[k] != key,
            decreases self.keys@.len() - i,
        {
            if self.keys[i] == key {
                return i;
            }
            i = i + 1;
        }
        i
    }

    /// Adds a key; says whether it was not held before.
    pub fn insert(&mut self, key: Key) -> (r: bool)
        requires
            old(self).well_formed(),
        ensures
            final(self).well_formed(),
            final(self)@ == old(self)@.insert(key),
            r == !old(self)@.contains(key),
    {
        let ghost before = self.keys@;
        let at: usize = self.position(key);
        if at < self.keys.len() {
            assert(before.contains(key));
            assert(before.to_set() =~= before.to_set().insert(key));
            return false;
        }
        self.keys.push(key);
        proof {
            assert(self.keys@ =~= before.push(key));
            assert(self.keys@.to_set() =~= before.to_set().insert(key)) by {
                assert forall|k: Key| #[trigger]
                    self.keys@.contains(k) == (before.contains(k) || k == key) by {
                    if before.contains(k) {
                        let i = before.index_of(k);
                        assert(self.keys@[i] == k);
                    }
                    if k == key {
                        assert(self.keys@[before.len() as int] == k);
                    }
                }
            }
        }
        true
    }

    /// Takes a key out.
    pub fn remove(&mut self, key: Key)
        requires
            old(self).well_formed(),
        ensures
            final(self).well_formed(),
            final(self)@ == old(self)@.remove(key),
    {
        let ghost before = self.keys@;
        let at: usize = self.position(key);
        if at < self.keys.len() {
            let _ = self.keys.remove(at);
            proof {
                assert(self.keys@ =~= before.remove(at as int));
                assert forall|k: Key| #[trigger]
                    self.keys@.contains(k) == (before.contains(k) && k != key) by {
                    if self.keys@.contains(k) {
                        let i = self.keys@.index_of(k);
                        let j = if i < at {
                            i
                        } else {
                            i + 1
                        };
                        assert(before[j] == k);
                    }
                    if before.contains(k) && k != key {
                        let i = before.index_of(k);
                        let j = if i < at {
                            i
                        } else {
                            i - 1
                        };
                        assert(self.keys@[j] == k);
                    }
                }
                assert(self.keys@.to_set() =~= before.to_set().remove(key));
            }
        } else {
            assert(before.to_set() =~= before.to_set().remove(key));
        }
    }
}

/// The keys that are held after an event.
pub open spec fn held_after(held: Set<Key>, event: KeyEvent) -> Set<Key> {
    match event.key {
        None => held,
        Some(key) => if event.is_key_down {
            held.insert(key)
        } else {
            held.remove(key)
        },
    }
}

/// The key that an event is about, and whether it just went down.
pub open spec fn key_news(held: Set<Key>, event: KeyEvent) -> Option<(Key, bool)> {
    match event.key {
        None => None,
        Some(key) => Some((key, event.is_key_down && !held.contains(key))),
    }
}

/// Keeps track of the keys that are held; says which key an event is about and
/// whether it just went down. A key that repeats while it is held did not.
pub fn update_pressed_keys(pressed_keys: &mut PressedKeys, event: KeyEvent) -> (r: Option<
    (Key, bool),
>)
    requires
        old(pressed_keys).well_formed(),
    ensures
        final(pressed_keys).well_formed(),
        match event.key {
            None => r is None && final(pressed_keys)@ == old(pressed_keys)@,
            Some(key) => if event.is_key_down {
                &&& r == Some((key, !old(pressed_keys)@.contains(key)))
                &&& final(pressed_keys)@ == old(pressed_keys)@.insert(key)
            } else {
                &&& r == Some((key, false))
                &&& final(pressed_keys)@ == old(pressed_keys)@.remove(key)
            },
        },
        final(pressed_keys)@ == held_after(old(pressed_keys)@, event),
        r == key_news(old(pressed_keys)@, event),
{
    match event.key {
        None => None,
        Some(key) => {
            if event.is_key_down {
                let first: bool = pressed_keys.insert(key);
                Some((key, first))
            } else {
                pressed_keys.remove(key);
                Some((key, false))
            }
        },
    }
}

/// A shortcut never counts as typing.
pub proof fn shortcut_is_no_typing(key: Key, modifiers: Modifiers, macos: bool)
    requires
        shortcut(modifiers, macos),
    ensures
        kind_of(key, modifiers, macos) != KeyKind::Typing,
{
}

/// The enter keys send the text off whatever else is held, unless both shift keys are
/// held and no shortcut modifier is.
pub proof fn enter_submits(key: Key, modifiers: Modifiers, macos: bool)
    requires
        enter(key),
        !modifiers.all_of(SHIFT) || shortcut(modifiers, macos),
    ensures
        kind_of(key, modifiers, macos) == KeyKind::Submit,
{
}

} // verus!
