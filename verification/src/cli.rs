//! The command-line surface, as plain values. Argument parsing itself
//! happens outside the library; these types carry what it decides.

use vstd::prelude::*;

verus! {

/// The options of one invocation.
#[derive(Debug, Clone, Copy, PartialEq, Eq, Structural)]
pub struct VersionSync {
    /// Whether the per-file diff detail is printed.
    pub verbose: bool,
}

/// The tool as invoked through its host: a single subcommand carrying the
/// options.
#[derive(Debug, Clone, Copy, PartialEq, Eq, Structural)]
pub enum Cargo {
    VersionSync(VersionSync),
}

} // verus!
