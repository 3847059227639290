//! The enumerations that the command line selects from.

use vstd::prelude::*;

verus! {

/// How much is written to the console, from everything to errors only.
#[derive(Clone, Copy, Debug, PartialEq, Eq, Structural)]
pub enum Level {
    /// Write absolutely everything to stdout.
    Verbose,
    /// Write unfiltered debug information to stdout.
    Debug,
    /// Write filesystem operations and useful process information to stdout.
    Info,
    /// Write only warning and error messages to stderr.
    Warn,
    /// Disable all output except error messages.
    Error,
}

impl Level {
    /// Position of the level from the most talkative (0) to the quietest (4).
    pub open spec fn rank(self) -> int {
        match self {
            Level::Verbose => 0,
            Level::Debug => 1,
            Level::Info => 2,
            Level::Warn => 3,
            Level::Error => 4,
        }
    }

    /// Whether a logger set to `self` writes a message of severity `message`:
    /// it does when the message is at least as severe as the level.
    pub fn allows(&self, message: Level) -> (r: bool)
        ensures
            r == (self.rank() <= message.rank()),
    {
        match message {
            Level::Verbose => matches!(self, Level::Verbose),
            Level::Debug => matches!(self, Level::Verbose | Level::Debug),
            Level::Info => !matches!(self, Level::Warn | Level::Error),
            Level::Warn => !matches!(self, Level::Error),
            Level::Error => true,
        }
    }
}

/// The maintenance actions on the persisted cache.
#[derive(Clone, Copy, Debug, PartialEq, Eq, Structural)]
pub enum CacheCommand {
    /// Delete the persisted cache file.
    Clear,
    /// List every record of the persisted cache.
    Dump,
    /// Show where the persisted cache file lives.
    Path,
}

/// The colour in which a count of successes out of a total is shown.
#[derive(Clone, Copy, Debug, PartialEq, Eq, Structural)]
pub enum SuccessColor {
    /// Every item succeeded.
    Green,
    /// Some items, but not all, succeeded.
    Yellow,
    /// No item succeeded, out of a non-zero total.
    Red,
}

/// Colour for `hits` successes out of `outof`: green when all succeeded
/// (an empty total included), red when none did, yellow otherwise.
pub fn usize_success(hits: usize, outof: usize) -> (r: SuccessColor)
    ensures
        r == (if hits == outof {
            SuccessColor::Green
        } else if hits == 0 {
            SuccessColor::Red
        } else {
            SuccessColor::Yellow
        }),
{
    if hits == outof {
        SuccessColor::Green
    } else if hits == 0 {
        SuccessColor::Red
    } else {
        SuccessColor::Yellow
    }
}

} // verus!
