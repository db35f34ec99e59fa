//! Restores a window's persisted size into a window-configuration template.
//!
//! The template is JSON text that holds one `"width":<digits>,"height":<digits>`
//! pair. A size that was persisted on an earlier resize is written over that
//! pair, byte for byte, before the text is parsed into a window configuration.

pub mod colour;
pub mod config;
pub mod decimal;
pub mod error;
pub mod patch;
pub mod pattern;
pub mod record;
pub mod restore;
pub mod size;
