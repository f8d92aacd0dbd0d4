//! Delivery of text into the focused field, through the clipboard or by typing.
pub mod delivery;
pub mod delivery_laws;
pub mod outcome;
pub mod paste;
pub mod paste_laws;
pub mod provider;
pub mod provider_laws;
pub mod tool_laws;
pub mod tools;
