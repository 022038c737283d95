//! Verbosity levels for textual reporting.
//!
//! The level controls what a front end prints and nothing else: the
//! comparison itself never reads it.

use vstd::prelude::*;

verus! {

/// An ordered verbosity level: nothing, the result line, or extra detail.
#[derive(Clone, Copy, Debug, PartialEq, Eq, Structural)]
pub enum Verbosity {
    Silent,
    Normal,
    Verbose,
}

impl Verbosity {
    /// The level's rank; a higher rank prints more.
    pub open spec fn level_spec(self) -> int {
        match self {
            Verbosity::Silent => 0,
            Verbosity::Normal => 1,
            Verbosity::Verbose => 2,
        }
    }

    /// The level's rank; a higher rank prints more.
    pub fn level(&self) -> (l: u8)
        ensures
            l == self.level_spec(),
    {
        match self {
            Verbosity::Silent => 0,
            Verbosity::Normal => 1,
            Verbosity::Verbose => 2,
        }
    }

    /// Whether this level prints at least as much as `other`.
    pub fn at_least(&self, other: &Verbosity) -> (r: bool)
        ensures
            r == (self.level_spec() >= other.level_spec()),
    {
        self.level() >= other.level()
    }

    /// The level chosen from command-line flags: silence wins over verbosity,
    /// and without either flag the result line alone is printed.
    pub fn from_flags(silent: bool, verbose: bool) -> (v: Verbosity)
        ensures
            silent ==> v == Verbosity::Silent,
            !silent && verbose ==> v == Verbosity::Verbose,
            !silent && !verbose ==> v == Verbosity::Normal,
    {
        if silent {
            Verbosity::Silent
        } else if verbose {
            Verbosity::Verbose
        } else {
            Verbosity::Normal
        }
    }
}

} // verus!
