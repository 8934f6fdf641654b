//! Failure kinds reported by memory and view operations.

use vstd::prelude::*;

verus! {

/// Every failure a memory or view operation can report. Each kind is
/// recoverable: the operation that reports it leaves the memory unchanged,
/// and the host may retry or surface the error in its own convention.
#[derive(Clone, Copy, Debug, PartialEq, Eq, Structural)]
pub enum MemoryError {
    /// Growth was requested beyond `max_pages`, or the requested size is
    /// not addressable on this host.
    GrowFailed,
    /// An element index at or beyond the view's current length.
    OutOfBounds,
    /// A value that cannot be encoded in the view's element width under
    /// the view's signedness. Out-of-range writes are rejected, never
    /// silently truncated.
    ValueOutOfRange,
}

impl MemoryError {
    /// The human-readable description of this error kind.
    pub open spec fn spec_message(self) -> Seq<char> {
        match self {
            MemoryError::GrowFailed => "failed to grow the memory"@,
            MemoryError::OutOfBounds => "index out of bounds"@,
            MemoryError::ValueOutOfRange => "value out of range for the element type"@,
        }
    }

    /// A human-readable message, so the host layer can translate this
    /// error into its native reporting convention.
    pub fn message(&self) -> (r: &'static str)
        ensures
            r@ == self.spec_message(),
    {
        match self {
            MemoryError::GrowFailed => "failed to grow the memory",
            MemoryError::OutOfBounds => "index out of bounds",
            MemoryError::ValueOutOfRange => "value out of range for the element type",
        }
    }
}

} // verus!
