//! Logging verbosity levels selectable on the command line.  Wiring a
//! level into a concrete logger is the surrounding binary's concern.

use vstd::prelude::*;

verus! {

/// Available logging levels, ordered from quietest to most verbose.
#[derive(Debug, Clone, Copy, PartialEq, Eq, Structural)]
pub enum LogLevel {
    Error,
    Info,
    Debug,
}

} // verus!
