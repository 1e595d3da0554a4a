//! Options that callers choose.

use vstd::prelude::*;

verus! {

/// What to do with a local time that a zone skips or repeats.
#[derive(Debug, Clone, Copy, PartialEq, Eq, Structural)]
pub enum Disambiguation {
    /// The earlier instant of a repeated time, the later reading of a skipped one.
    Compatible,
    /// The earlier instant in both cases.
    Earlier,
    /// The later instant in both cases.
    Later,
    /// Neither: such a time is an error.
    Reject,
}

} // verus!
