//! What each widget shows.
//!
//! Widgets are drawn by the program with the terminal library; the text,
//! layout decisions and cell contents they draw are computed here.

pub mod album_art;
pub mod banner;
pub mod big_title;
pub mod controls;
pub mod now_playing;
pub mod tone;
pub mod volume;
