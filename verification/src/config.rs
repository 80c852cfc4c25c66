//! Execution-context selection and configuration.
//!
//! Device binding, global defaults and placement hints are collaborators of
//! the runtime, not part of its core: the types here are the seam they plug
//! into.  The core itself never consults them.

use vstd::prelude::*;
use crate::ids::Tag;

verus! {

/// Optimization guidance for evaluating a frame of tags.  The core defines
/// no optimization passes; the empty hint asks for none.
#[derive(Clone, Debug)]
pub struct OptimizeHint {}

impl OptimizeHint {
    /// The hint that asks for no optimization.
    pub fn empty() -> (r: OptimizeHint)
        ensures
            r == (OptimizeHint {  }),
    {
        OptimizeHint {}
    }
}

/// The global defaults of a process: the optimization hint applied where a
/// caller supplies none.
#[derive(Clone)]
pub struct DefaultConfig {
    pub default_opt_hint: Option<OptimizeHint>,
}

impl DefaultConfig {
    /// The configuration a fresh process starts from: no default hint.
    pub fn new() -> (r: DefaultConfig)
        ensures
            r.default_opt_hint is None,
    {
        DefaultConfig { default_opt_hint: None }
    }
}

/// An execution context: the binding of evaluation to a device.  The core
/// is device-neutral; contexts are an extension point.
pub trait ExecutionCtx {

}

/// The device-neutral execution context.
#[derive(Clone)]
pub struct DummyCtx {}

impl ExecutionCtx for DummyCtx {

}

/// The execution context of the current thread of control.  With no device
/// bindings defined, this is the device-neutral context.
pub fn thread_ctx() -> (r: DummyCtx)
    ensures
        r == (DummyCtx {  }),
{
    DummyCtx {}
}

/// A placement: where an object's payload lives.  The core places nothing;
/// placements are an extension point.
pub trait Placement {

}

/// A set of live references, gathered to be optimized into a frame.  The
/// core defines no frame optimization; the vector records the references.
pub struct TagVec {
    pub inner: Vec<Tag>,
}

} // verus!
