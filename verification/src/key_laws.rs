//! What holds of the meaning of keys.
use crate::keys::{held_after, key_news, kind_of, shortcut, Key, KeyEvent, KeyKind, Modifiers};
use vstd::prelude::*;

verus! {

/// The keys and buttons that never change a text: for media, functions, moving about,
/// locking and the like.
pub open spec fn writes_nothing(key: Key) -> bool {
    match key {
        Key::PlayPause | Key::Stop | Key::PrevTrack | Key::NextTrack => true,
        Key::F1 | Key::F2 | Key::F3 | Key::F4 | Key::F5 | Key::F6 | Key::F7 | Key::F8 => true,
        Key::F9 | Key::F10 | Key::F11 | Key::F12 | Key::F13 | Key::F14 | Key::F15 => true,
        Key::F16 | Key::F17 | Key::F18 | Key::F19 | Key::F20 | Key::F21 | Key::F22 => true,
        Key::F23 | Key::F24 | Key::Tab | Key::Escape | Key::Insert | Key::Pause => true,
        Key::Home | Key::End | Key::PageUp | Key::PageDown => true,
        Key::LeftArrow | Key::RightArrow | Key::UpArrow | Key::DownArrow => true,
        Key::KeypadClear | Key::CapsLock | Key::ScrollLock | Key::NumLock => true,
        Key::PrintScreen | Key::ContextMenu | Key::Dictation => true,
        Key::MouseLeft | Key::MouseRight | Key::MouseMiddle | Key::MouseX1 | Key::MouseX2 => true,
        _ => false,
    }
}

/// A key is held from going down until going up, and no event changes whether another
/// key is; only the first of several events of a key going down is news.
pub proof fn keys_are_held_until_released(held: Set<Key>, event: KeyEvent, other: Key)
    ensures
        event.key matches Some(key) ==> held_after(held, event).contains(key)
            == event.is_key_down,
        event.key != Some(other) ==> held_after(held, event).contains(other) == held.contains(
            other,
        ),
        event.key is None ==> key_news(held, event) is None,
        event.key matches Some(key) ==> key_news(held, event) == Some(
            (key, event.is_key_down && !held.contains(key)),
        ),
        event.key matches Some(key) ==> key_news(held_after(held, event), event) == Some(
            (key, false),
        ),
{
}

/// Every key that writes or deletes counts as typing unless it is a shortcut, and no
/// other key but the enter keys ever does.
pub proof fn writing_keys_are_typing(key: Key, modifiers: Modifiers, macos: bool)
    requires
        key != Key::Return,
        key != Key::KeypadEnter,
    ensures
        kind_of(key, modifiers, macos) == (if writes_nothing(key) || shortcut(modifiers, macos) {
            KeyKind::Other
        } else {
            KeyKind::Typing
        }),
{
}

/// Both enter keys send the text off, and write a line end only with both shift keys
/// held and no shortcut.
pub proof fn enter_keys_are_alike(modifiers: Modifiers, macos: bool)
    ensures
        kind_of(Key::Return, modifiers, macos) == kind_of(Key::KeypadEnter, modifiers, macos),
        kind_of(Key::Return, modifiers, macos) == (if modifiers.bits & 0x42 == 0x42 && !shortcut(
            modifiers,
            macos,
        ) {
            KeyKind::Typing
        } else {
            KeyKind::Submit
        }),
{
}

/// Each command key, each control key and the function key make a shortcut, whatever
/// else is held; so does the left option key, and on macOS the right one too.
pub proof fn shortcut_modifiers(modifiers: Modifiers, macos: bool)
    ensures
        modifiers.bits & 0x1 != 0 ==> shortcut(modifiers, macos),
        modifiers.bits & 0x20 != 0 ==> shortcut(modifiers, macos),
        modifiers.bits & 0x4 != 0 ==> shortcut(modifiers, macos),
        modifiers.bits & 0x80 != 0 ==> shortcut(modifiers, macos),
        modifiers.bits & 0x10 != 0 ==> shortcut(modifiers, macos),
        modifiers.bits & 0x8 != 0 ==> shortcut(modifiers, macos),
        modifiers.bits & 0x100 != 0 && macos ==> shortcut(modifiers, macos),
{
    let b = modifiers.bits;
    assert((b & 0x1 != 0 || b & 0x20 != 0 || b & 0x4 != 0 || b & 0x80 != 0 || b & 0x10 != 0) ==> b
        & 0xB5 != 0) by (bit_vector);
    assert(b & 0x8 != 0 ==> b & 0x108 != 0 && b & 0x108 != 0x100) by (bit_vector);
    assert(b & 0x100 != 0 ==> b & 0x108 != 0) by (bit_vector);
}

/// The shift keys alone make no shortcut, and elsewhere than on macOS neither does the
/// right option key, which types characters there.
pub proof fn typing_modifiers(modifiers: Modifiers, macos: bool)
    ensures
        modifiers.bits & 0x1BD == 0 ==> !shortcut(modifiers, macos),
        modifiers.bits & 0xBD == 0 && !macos ==> !shortcut(modifiers, macos),
{
    let b = modifiers.bits;
    assert(b & 0x1BD == 0 ==> b & 0xB5 == 0 && b & 0x108 == 0) by (bit_vector);
    assert(b & 0xBD == 0 ==> b & 0xB5 == 0 && (b & 0x108 == 0 || b & 0x108 == 0x100))
        by (bit_vector);
}

} // verus!
