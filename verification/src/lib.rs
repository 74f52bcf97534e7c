//! sptf-tui — the verified core of a terminal music controller for Linux.
//!
//! The library holds the logic of the controller: the playback domain
//! model, MPRIS metadata and status parsing, keybinding parsing and lookup,
//! configuration layering, the application's event-driven decisions and the
//! text that each widget shows. Terminal, DBus, network and file access live
//! in the program around it.

pub mod text;
pub mod cli;
pub mod domain;
pub mod common;
pub mod utils;
pub mod config;
pub mod input;
pub mod mpris;
pub mod services;
pub mod app;
pub mod state;
pub mod rendering;
pub mod widgets;

pub use crate::cli::Cli;
