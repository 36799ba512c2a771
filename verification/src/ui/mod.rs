//! What the screen shows, decided from plain values.

pub mod controls;
pub mod footer;
pub mod header;
pub mod layout;
pub mod lyric_line;
pub mod playlist_modal;
pub mod spectrum;
pub mod window;
