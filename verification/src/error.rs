//! The failure taxonomy of the runtime.
//!
//! None of these conditions is designed to be recovered locally: each one
//! reports a broken invariant (a dangling reference, re-entrant forcing, a
//! construction mistake) and is surfaced immediately as a terminal failure of
//! the current evaluation.  There is no retry and no silent state reset; the
//! caller decides between shutdown and propagation.

use vstd::prelude::*;

verus! {

/// A terminal failure of one evaluation.
#[derive(Clone, Copy, PartialEq, Eq, Structural, Debug)]
pub enum RtError {
    /// A stable tag was looked up and no heap entry (or no backing data
    /// cell) exists for it: a reference-lifetime error.
    ObjectNotFound,
    /// The heap entry found under a stable tag does not match the payload
    /// type the caller expected: an identity/type-tag correlation bug.
    TypeMismatch,
    /// A force was requested on a thunk already mid-evaluation (black hole):
    /// the dependency path is cyclic, or the forcing re-entered.
    CyclicEvaluation,
    /// A data cell was read before its allocator ever ran.
    UninitializedPayload,
    /// A thunk was constructed without its entry code.
    MissingEntryCode,
    /// A data cell was constructed without its allocator.
    MissingAllocator,
}

} // verus!
