//! A lazy, transactional graph-reduction runtime.
//!
//! The heap is an arena of addressable objects — mutable data cells and
//! deferred computations (thunks) — evaluated on demand, once, with memoized
//! results, under an explicit per-evaluation transaction identity.  All heap
//! state lives in a context that is threaded explicitly through every
//! operation; mutation goes through the arena, never through aliased
//! per-node ownership, so the single-writer / many-reader discipline of the
//! data cells is enforced by `&mut` versus `&` at compile time.

pub mod cell;
pub mod config;
pub mod error;
pub mod heap;
pub mod ids;
pub mod ops;
pub mod runtime;
pub mod thunk;
pub mod value;
