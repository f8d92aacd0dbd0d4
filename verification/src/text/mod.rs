//! Transcribed text: correction towards custom words and removal of fillers.
pub mod boundary;
pub mod boundary_laws;
pub mod bytes;
pub mod correction_laws;
pub mod custom_word_laws;
pub mod custom_words;
pub mod filler_laws;
pub mod fillers;
pub mod filter;
pub mod filter_laws;
pub mod kept;
pub mod pattern_laws;
pub mod patterns;
pub mod score_laws;
pub mod spans;
pub mod strings;
pub mod unicode;
pub mod word_laws;
