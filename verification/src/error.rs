//! The ways in which a decode can fail.

use vstd::prelude::*;

verus! {

/// An error that can occur while decoding. Every error is final: the decode
/// that met it yields nothing else.
#[derive(Debug, PartialEq, Eq, Clone, Copy, Structural)]
pub enum Error {
    /// The node does not have the expected shape, or the source text is
    /// malformed.
    Bad,
    /// The node is a number that does not fit the requested width.
    NumericOutOfBounds,
    /// The source ended before a complete node was read.
    Eof,
}

} // verus!
