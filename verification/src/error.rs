use vstd::prelude::*;

verus! {

/// Terminal errors of a read or write call.
///
/// Every error carries enough structured detail (line number, expected and
/// actual sizes, the offending token) to diagnose a malformed input without
/// re-parsing it.
#[derive(Debug, Clone, PartialEq, Eq)]
pub enum PcdError {
    /// Failure of the byte source or sink, including unexpected end of input.
    Io(String),
    /// A header grammar or consistency violation, with the 1-based line number.
    InvalidHeader { line: usize, msg: String },
    /// A type-tag and size combination outside the eight supported element types.
    UnsupportedType(String),
    /// A body-encoding token outside the fixed supported set.
    UnsupportedDataFormat(String),
    /// A body-level parse failure: bad token or missing column.
    InvalidDataFormat(String),
    /// A compression failure or a declared-length mismatch.
    Decompression(String),
    /// A structural size or stride disagreement.
    LayoutMismatch { expected: usize, got: usize },
    /// A supplied buffer cannot hold the declared data.
    BufferTooSmall { expected: usize, got: usize },
    /// Any other failure.
    Other(String),
}

} // verus!
