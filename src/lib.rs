//! Core of a desktop taskbar: window metadata, icon decoding and blending,
//! the adaptive layout of window cells, ellipsis truncation and the
//! event-driven redraw decisions.

pub mod cache;
pub mod icon;
pub mod layout;
pub mod panel;
pub mod text;
pub mod title;
