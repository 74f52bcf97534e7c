//! The player-control abstraction and its in-memory implementation.

pub mod mock;
pub mod player;

pub use mock::{MockCall, MockPlayerService};
pub use player::PlayerService;
