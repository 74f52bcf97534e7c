//! The command-line options of the program.

use vstd::prelude::*;

verus! {

/// Options given on the command line.
#[derive(Debug, Clone, PartialEq, Eq)]
pub struct Cli {
    /// Path to an alternative configuration file (TOML).
    pub config: Option<String>,
    /// How many times `-v` was given: 1 for info, 2 for debug, 3 or more
    /// for trace logging.
    pub verbose: u8,
}

} // verus!
