//! Cross-cutting pieces: error categories and log-filter selection.

pub mod error;
pub mod logging;
