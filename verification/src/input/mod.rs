//! Keyboard input handling.
//!
//! [`Action`] is the abstract command space the rest of the program
//! understands; [`Keymap`] turns key combinations into actions.

pub mod action;
pub mod key_parser;
pub mod keymap;

pub use action::Action;
pub use key_parser::{parse as parse_key, KeyCode, KeyCombo, KeyModifiers};
pub use keymap::Keymap;
