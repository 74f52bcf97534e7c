//! Pure value types describing music playback.

pub mod duration;
pub mod playback;
pub mod player;
pub mod track;

pub use duration::Duration;
pub use playback::{PlaybackState, PlaybackStatus};
pub use player::PlayerSnapshot;
pub use track::{Album, Artist, Track};
