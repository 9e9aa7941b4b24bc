//! The caller-facing error taxonomy.  Every operation returns one of these
//! synchronously and leaves the state untouched on failure.

use vstd::prelude::*;

verus! {

/// Why a request was rejected.
#[derive(Clone, Copy, PartialEq, Eq, Structural, Debug)]
pub enum SkatError {
    /// An actor other than the one the phase designates tried to move.
    InvalidPlayer,
    /// A move that is structurally valid for the phase but breaks a rule.
    InvalidMove,
    /// An operation whose structural precondition fails, such as acting in a
    /// finished deal or picking from an empty widow.
    InvalidState,
    /// Malformed move text.
    InvalidInput,
}

impl SkatError {
    /// A short description of the error kind.
    pub fn text(&self) -> (r: &'static str)
        ensures
            r@ == self.spec_text(),
    {
        proof {
            reveal_strlit("invalid player");
            reveal_strlit("invalid move");
            reveal_strlit("invalid state");
            reveal_strlit("invalid input");
        }
        match self {
            SkatError::InvalidPlayer => "invalid player",
            SkatError::InvalidMove => "invalid move",
            SkatError::InvalidState => "invalid state",
            SkatError::InvalidInput => "invalid input",
        }
    }

    pub open spec fn spec_text(self) -> Seq<char> {
        match self {
            SkatError::InvalidPlayer => "invalid player"@,
            SkatError::InvalidMove => "invalid move"@,
            SkatError::InvalidState => "invalid state"@,
            SkatError::InvalidInput => "invalid input"@,
        }
    }
}

} // verus!
