//! Thunks: deferred, memoized computations.
//!
//! A thunk holds code to run once, a memoization state, the stable tag of
//! its backing data cell, and the tags of the objects it depends on.  The
//! state machine is `Empty → BlackHole → Valid`: black hole marks an
//! evaluation in progress (forcing a black hole is a cyclic dependency);
//! valid marks a memoized result.  There is no transition back to `Empty`,
//! and a failed evaluation deliberately stays a black hole — a thunk that
//! failed once must not be silently retried over possibly inconsistent
//! partial writes.

use vstd::prelude::*;
use crate::error::RtError;
use crate::heap::{HeapEntry, insertable, op_ready, operand_valid, thunk_at, thunk_payload, thunk_res_ok};
use crate::ids::{RTag, STag, Tag, Txn};
use crate::runtime::{Ctx, eval_frame, force_post};
use crate::value::{Ty, Val, val_ty};

verus! {

/// The memoization state of a thunk.
#[derive(Clone, Copy, PartialEq, Eq, Structural, Debug)]
pub enum ThunkState {
    /// Never evaluated.
    Empty,
    /// Evaluation in progress; forcing again is a cyclic dependency.
    BlackHole,
    /// Result available and memoized.
    Valid,
}

/// The entry code of a thunk: which operation it runs, over which operands.
/// Operands are named by the stable tags of the thunks whose cells they are
/// read from; the central dispatcher resolves and forces them.
#[derive(Clone, Copy, PartialEq, Eq, Structural, Debug)]
pub enum EntryCode {
    /// Write a fixed value.
    Constant(Val),
    /// Write the sum of two numeric operands, wrapping on overflow.
    Add { x1: STag, x2: STag },
    /// Write the first operand when the condition holds `false`, the second
    /// when it holds `true`.
    Switch { cond: STag, x1: STag, x2: STag },
}

/// The reverse-mode hook of a thunk.  It is named in the object model as an
/// extension point; its evaluation semantics are not defined here.
#[derive(Clone, Copy, PartialEq, Eq, Structural, Debug)]
pub struct AdjointCode {}

/// The code of a thunk: entry code, and the optional reverse-mode hook.  A
/// thunk constructed without entry code fails with `MissingEntryCode` when
/// forced.
#[derive(Clone, Copy, PartialEq, Eq, Structural, Debug)]
pub struct ThunkCode {
    pub entry: Option<EntryCode>,
    pub adjoint: Option<AdjointCode>,
}

impl ThunkCode {
    /// An identical copy of the code.
    pub fn clone(&self) -> (r: ThunkCode)
        ensures
            r == *self,
    {
        ThunkCode { entry: self.entry, adjoint: self.adjoint }
    }
}

/// A deferred computation, owned by the heap: code to run once, a
/// memoization state, the stable tag of its backing data cell, and the tags
/// of its free variables (its dependency edges).
pub struct Thunk {
    pub stable: STag,
    pub data: Option<STag>,
    pub state: ThunkState,
    pub freevars: Vec<Tag>,
    pub code: ThunkCode,
    pub ty: Ty,
}

impl Thunk {
    /// An identical copy of the thunk, every tag preserved exactly.
    pub fn _clone_exact(&self) -> (r: Thunk)
        ensures
            r.stable == self.stable,
            r.data == self.data,
            r.state == self.state,
            r.freevars@ == self.freevars@,
            r.code == self.code,
            r.ty == self.ty,
    {
        let mut freevars: Vec<Tag> = Vec::new();
        let mut i: usize = 0;
        while i < self.freevars.len()
            invariant
                i <= self.freevars.len(),
                freevars@ == self.freevars@.subrange(0, i as int),
            decreases self.freevars.len() - i,
        {
            freevars.push(self.freevars[i]._clone_exact());
            proof {
                assert(freevars@ == self.freevars@.subrange(0, i + 1 as int));
            }
            i = i + 1;
        }
        proof {
            assert(freevars@ == self.freevars@);
        }
        Thunk {
            stable: self.stable,
            data: self.data,
            state: self.state,
            freevars,
            code: self.code.clone(),
            ty: self.ty,
        }
    }
}

/// Whether a thunk may be moved into the context's heap: its stable tag was
/// issued and is free, it arrives unevaluated, its cell is its own, and its
/// data link names no identifier the counter has not issued.
pub open spec fn putable(c: Ctx, t: Thunk) -> bool {
    &&& 0 < t.stable.uid <= c.uid
    &&& insertable(c.hm(), t.stable.uid, HeapEntry::Thunk(t))
    &&& match t.data {
        Some(ds) => ds.uid <= c.uid,
        None => true,
    }
}

impl Thunk {
    /// Moves this thunk into the heap under its own stable tag and returns
    /// an external reference to it, under a fresh retain tag.
    pub fn _put_obj(self, ctx: &mut Ctx) -> (r: ThunkRef)
        requires
            old(ctx).wf(),
            old(ctx).uid < u64::MAX,
            putable(*old(ctx), self),
        ensures
            final(ctx).wf(),
            final(ctx).uid == old(ctx).uid + 1,
            final(ctx).heap.stable == old(ctx).heap.stable,
            final(ctx).hm() == old(ctx).hm().insert(self.stable.uid, HeapEntry::Thunk(self)),
            r.tag.stable == self.stable,
            r.tag.retain == (RTag { uid: (old(ctx).uid + 1) as u64 }),
            r.ty == self.ty,
    {
        let retain = RTag::new(ctx);
        let stable = self.stable;
        let ty = self.ty;
        crate::runtime::put_entry(ctx, stable, HeapEntry::Thunk(self));
        ThunkRef { tag: Tag { stable, retain }, ty }
    }
}

/// An external, cloneable handle to a thunk: a full reference identity plus
/// the payload type the holder expects.  Cloning the reference mints a new
/// retain tag while preserving the stable tag.
pub struct ThunkRef {
    pub tag: Tag,
    pub ty: Ty,
}

impl ThunkRef {
    /// A reference built from a full reference identity.
    pub fn _from_tag(tag: Tag, ty: Ty) -> (r: ThunkRef)
        ensures
            r.tag == tag,
            r.ty == ty,
    {
        ThunkRef { tag, ty }
    }

    /// An identical reference: same stable tag, same retain tag.
    pub fn _clone_exact(&self) -> (r: ThunkRef)
        ensures
            r.tag == self.tag,
            r.ty == self.ty,
    {
        ThunkRef { tag: self.tag._clone_exact(), ty: self.ty }
    }

    /// A new reference to the same thunk: same stable tag, fresh retain
    /// tag.
    pub fn clone_ref(&self, ctx: &mut Ctx) -> (r: ThunkRef)
        requires
            old(ctx).wf(),
            old(ctx).uid < u64::MAX,
        ensures
            final(ctx).wf(),
            final(ctx).uid == old(ctx).uid + 1,
            final(ctx).heap == old(ctx).heap,
            r.tag.stable == self.tag.stable,
            r.tag.retain == (RTag { uid: (old(ctx).uid + 1) as u64 }),
            r.ty == self.ty,
    {
        ThunkRef { tag: self.tag.clone_ref(ctx), ty: self.ty }
    }

    /// Resolves this reference against the heap: the referent must exist
    /// and be a thunk of the expected payload type.
    pub fn _get_obj(&self, ctx: &Ctx) -> (r: Result<RThunk, RtError>)
        ensures
            match r {
                Ok(rt) => {
                    &&& thunk_res_ok(ctx.hm(), self.tag.stable.uid, self.ty)
                    &&& rt.tag == self.tag
                    &&& rt.ty == self.ty
                    &&& rt.data == thunk_at(ctx.hm(), self.tag.stable.uid).data
                },
                Err(RtError::ObjectNotFound) => !ctx.hm().contains_key(self.tag.stable.uid),
                Err(RtError::TypeMismatch) => ctx.hm().contains_key(self.tag.stable.uid)
                    && !thunk_res_ok(ctx.hm(), self.tag.stable.uid, self.ty),
                Err(_) => false,
            },
    {
        match ctx.heap.objs.get(&self.tag.stable.uid) {
            None => Err(RtError::ObjectNotFound),
            Some(HeapEntry::Data(_)) => Err(RtError::TypeMismatch),
            Some(HeapEntry::Thunk(th)) => {
                if th.ty == self.ty {
                    Ok(RThunk { tag: self.tag._clone_exact(), data: th.data, ty: self.ty })
                } else {
                    Err(RtError::TypeMismatch)
                }
            },
        }
    }

    /// Forces the referenced thunk on behalf of transaction `t`.
    ///
    /// A memoized thunk returns at once and nothing changes — the call is
    /// idempotent.  A thunk already mid-evaluation is a cyclic dependency
    /// and fails, and nothing changes.  Otherwise the thunk's entry code
    /// runs once, depth-first through its operands, and on success the
    /// thunk is memoized; success is owed whenever every operand is itself
    /// memoized or an unevaluated constant.  On failure the thunk stays a
    /// black hole: it is not silently retried.
    pub fn force_eval(&self, ctx: &mut Ctx, t: Txn) -> (r: Result<(), RtError>)
        requires
            old(ctx).wf(),
        ensures
            eval_frame(*old(ctx), *final(ctx)),
            force_post(
                old(ctx).hm(),
                final(ctx).hm(),
                self.tag.stable.uid,
                self.ty,
                old(ctx).uid,
                r,
            ),
            op_ready(old(ctx).hm(), self.tag.stable.uid, self.ty) ==> r is Ok,
    {
        proof {
            if op_ready(ctx.hm(), self.tag.stable.uid, self.ty) {
                crate::runtime::lemma_ready_fuel(*ctx, self.tag.stable.uid, self.ty);
            }
        }
        let fuel = ctx.uid;
        crate::runtime::force_at(ctx, self.tag.stable.uid, self.ty, t, fuel)
    }
}

/// A resolved handle to a thunk: the referent existed, as a thunk of the
/// expected type, when the handle was taken.  It carries the stable tag of
/// the thunk's backing data cell.
pub struct RThunk {
    pub tag: Tag,
    pub data: Option<STag>,
    pub ty: Ty,
}

impl RThunk {
    /// Forces the resolved thunk, exactly as forcing through the external
    /// reference it was taken from.
    pub fn force_eval(&self, ctx: &mut Ctx, t: Txn) -> (r: Result<(), RtError>)
        requires
            old(ctx).wf(),
        ensures
            eval_frame(*old(ctx), *final(ctx)),
            force_post(
                old(ctx).hm(),
                final(ctx).hm(),
                self.tag.stable.uid,
                self.ty,
                old(ctx).uid,
                r,
            ),
            op_ready(old(ctx).hm(), self.tag.stable.uid, self.ty) ==> r is Ok,
    {
        proof {
            if op_ready(ctx.hm(), self.tag.stable.uid, self.ty) {
                crate::runtime::lemma_ready_fuel(*ctx, self.tag.stable.uid, self.ty);
            }
        }
        let fuel = ctx.uid;
        crate::runtime::force_at(ctx, self.tag.stable.uid, self.ty, t, fuel)
    }

    /// The memoized value of the thunk, forcing it first if it has never
    /// been evaluated.  A memoized thunk is read without any change to the
    /// heap, so every reader observes the one value the heap holds.
    pub fn get(&self, ctx: &mut Ctx, t: Txn) -> (r: Result<Val, RtError>)
        requires
            old(ctx).wf(),
        ensures
            eval_frame(*old(ctx), *final(ctx)),
            match r {
                Ok(_) => force_post(
                    old(ctx).hm(),
                    final(ctx).hm(),
                    self.tag.stable.uid,
                    self.ty,
                    old(ctx).uid,
                    Ok(()),
                ),
                Err(e) => force_post(
                    old(ctx).hm(),
                    final(ctx).hm(),
                    self.tag.stable.uid,
                    self.ty,
                    old(ctx).uid,
                    Err(e),
                ),
            },
            r matches Ok(v) ==> {
                &&& operand_valid(final(ctx).hm(), self.tag.stable.uid, self.ty)
                &&& thunk_payload(final(ctx).hm(), self.tag.stable.uid) == Some(v)
                &&& val_ty(v) == self.ty
            },
            op_ready(old(ctx).hm(), self.tag.stable.uid, self.ty) ==> r is Ok,
    {
        proof {
            if op_ready(ctx.hm(), self.tag.stable.uid, self.ty) {
                crate::runtime::lemma_ready_fuel(*ctx, self.tag.stable.uid, self.ty);
            }
        }
        let fuel = ctx.uid;
        crate::runtime::force_and_read(ctx, self.tag.stable.uid, self.ty, t, fuel)
    }
}

} // verus!
