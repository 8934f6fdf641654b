//! Typed, bounds-checked views over the growable linear memory of a
//! sandboxed program instance.
//!
//! The library has three parts:
//! - [`memory::Memory`]: owns the byte buffer, tracks whole 64 KiB pages,
//!   enforces an optional page maximum, and grows in place (zero-filling).
//! - [`view::MemoryView`]: a typed lens over a `Memory` at a byte offset.
//!   One generic component covers all six width/signedness variants; every
//!   access recomputes the element count from the memory passed to the call,
//!   so growth is visible to existing views without recreating them.
//! - [`error::MemoryError`]: the failure kinds every operation reports
//!   instead of panicking.

use vstd::prelude::*;

pub mod codec;
pub mod error;
pub mod memory;
pub mod view;

verus! {

/// Host-callable functions exported by a guest instance. The call-routing
/// layer that resolves arbitrary method names lives outside this library;
/// this type only provides the fixed fallback behaviour it dispatches to.
pub struct ExportedFunctions {}

impl ExportedFunctions {
    /// Creates the exported-functions table for one instance.
    pub fn new() -> ExportedFunctions {
        ExportedFunctions {}
    }

    /// Fallback for a method name that resolves to no exported function.
    /// The binding layer logs the name; the computed answer is the fixed
    /// placeholder value below.
    pub fn method_missing(&self, _method_name: String) -> (r: i32)
        ensures
            r == 42,
    {
        42
    }
}

} // verus!
