//! Application configuration.
//!
//! Settings are layered: built-in defaults, then the configuration file
//! (`~/.config/sptf-tui/config.toml` or the `--config` path), then
//! `SPTF_`-prefixed environment variables. The program reads the sources;
//! this module holds the typed settings and the layering itself.

pub mod loader;
pub mod paths;
pub mod settings;

pub use loader::{Settings, SettingsLayer};
pub use paths::Paths;
pub use settings::{KeymapSettings, LoggingSettings, PlayerSettings, UiSettings};
