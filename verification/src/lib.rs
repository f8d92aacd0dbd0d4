//! The decisions of a dictation program, apart from its windows, threads and devices.
//!
//! Transcribed text is corrected towards custom words and freed of fillers; manual
//! typing is told from other input; and text is brought into the focused field without
//! losing what was on the clipboard.
pub mod binary64;
pub mod clipboard;
pub mod field_laws;
pub mod focused_input;
pub mod key_laws;
pub mod keys;
pub mod number_laws;
pub mod settings;
pub mod text;
pub mod typing_laws;
pub mod typing_monitor;
