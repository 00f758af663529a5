//! The kinds of failure that decoding can report.

use vstd::prelude::*;

verus! {

/// What went wrong in a parse or decode call.
#[derive(Debug, Clone, Copy, PartialEq, Eq, Structural)]
pub enum Error {
    /// The bytes do not have the expected layout: a malformed header, a
    /// length that does not add up, or a buffer that ends too early.
    Format,
    /// A compressed block names an algorithm that is not known, cannot be
    /// decoded, or decodes to another length than it declares.
    Compression,
    /// No schema is registered for a class name and version met in the data.
    UnknownClass,
    /// The byte source could not deliver the requested range.
    Source,
}

/// Whether the outcome `r` of a parser agrees with the specified outcome `s`:
/// success with the specified value and next position, or a format error
/// exactly where the specification has no parse.
pub open spec fn agrees<T: View>(r: Result<(T, usize), Error>, s: Option<(T::V, int)>) -> bool {
    match r {
        Ok((v, next)) => s == Some((v@, next as int)),
        Err(e) => e == Error::Format && s is None,
    }
}

} // verus!
