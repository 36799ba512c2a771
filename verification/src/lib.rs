//! A terminal karaoke player: the logic behind the screen.

pub mod audio;
pub mod braille;
pub mod cli;
pub mod color;
pub mod config;
pub mod db;
pub mod i18n;
pub mod lyrics;
pub mod playlist;
pub mod text;
pub mod ui;
