//! What a caller attaches to a registration: a token and its interests.

use vstd::prelude::*;

verus! {

/// The caller's name for an event source.
#[derive(Clone, Copy, Debug, PartialEq, Eq, Structural)]
pub struct Token(pub usize);

/// The kinds of readiness that a caller asks for.
#[derive(Clone, Copy, Debug, PartialEq, Eq, Structural)]
pub struct Interest {
    /// Whether the caller asks for read readiness.
    pub readable: bool,
    /// Whether the caller asks for write readiness.
    pub writable: bool,
}

impl Interest {
    /// Whether read readiness is asked for.
    pub fn is_readable(self) -> (res: bool)
        ensures
            res == self.readable,
    {
        self.readable
    }

    /// Whether write readiness is asked for.
    pub fn is_writable(self) -> (res: bool)
        ensures
            res == self.writable,
    {
        self.writable
    }
}

} // verus!
