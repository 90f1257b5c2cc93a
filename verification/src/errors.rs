//! Error taxonomy: generation-time failures (malformed or oversized type
//! graphs, unsupported type combinations) and runtime marshaling failures
//! (wrong value kinds, allocation failure, bad byte ranges).

use vstd::prelude::*;
use crate::ty::TypeRef;

verus! {

/// A failure detected while planning or wiring the generated code.
///
/// Generation aborts on these: no lossy or partial wrapper is ever emitted.
#[derive(Clone, Copy, Debug, PartialEq, Eq, Structural)]
pub enum GenError {
    /// The type graph is not well formed (a reference does not point at an
    /// earlier definition, so acyclicity cannot be guaranteed).
    MalformedGraph,
    /// The definition at this index has a byte size that does not fit in a
    /// 32-bit size field.
    TypeTooLarge { id: usize },
    /// The parameter at this index has a type this engine cannot flatten yet;
    /// the offending type is reported alongside.
    UnsupportedParam { index: usize, ty: TypeRef },
    /// The result shape (a compound type, or named results) cannot be lifted
    /// by this engine yet; the offending type is reported when there is one.
    UnsupportedResult,
    /// The embedding options ask for two loaders at once.
    ConflictingOptions,
}

/// A failure at marshaling time, surfaced to the caller of a wrapped
/// function instead of a corrupted or partial value.
#[derive(Clone, Copy, Debug, PartialEq, Eq, Structural)]
pub enum MarshalError {
    /// A value of the wrong kind was handed to an encoder.
    TypeMismatch,
    /// A list element does not fit the width of its declared element kind.
    ValueOutOfRange,
    /// The module's allocator cannot serve the request within the 32-bit
    /// address space.
    AllocFailed,
    /// A pointer/length pair reaches outside the module's linear memory.
    OutOfBounds,
    /// The byte range to decode is not valid UTF-8.
    InvalidUtf8,
}

} // verus!
