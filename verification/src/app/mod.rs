//! The decisions of the event loop.
//!
//! The program runs the loop: it waits for terminal input, ticks and player
//! updates, performs player calls and redraws. Every decision it takes on
//! the way is one of the functions here, from state and event to the next
//! state and the action to perform.

pub mod events;
pub mod watcher;

pub use events::{AppEvent, PlayerCommand, Reaction};
