//! Small helpers shared across modules.

pub mod time;
