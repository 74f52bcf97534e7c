//! The roles a piece of text plays, which the theme maps to styles.

use vstd::prelude::*;

verus! {

/// The role of a piece of text on screen.
#[derive(Debug, Clone, Copy, PartialEq, Eq, Structural)]
pub enum Tone {
    /// Ordinary foreground text.
    Primary,
    /// Highlighted text.
    Accent,
    /// De-emphasised text.
    Muted,
    /// A warning.
    Warn,
}

} // verus!
