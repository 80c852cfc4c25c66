//! The identity layer.
//!
//! A context-local counter issues globally unique, monotonically increasing
//! identifiers, composed into two identity kinds: a *stable tag* (which
//! object — permanent) and a *retain tag* (which reference instance — fresh
//! for every reference taken).  Two tags with equal stable part but different
//! retain parts reach the same object through different reference paths.

use vstd::prelude::*;
use crate::runtime::Ctx;

verus! {

/// An opaque token identifying one reverse-mode pass (extension point).
pub struct Pass(pub u64);

/// An opaque token identifying one evaluation episode.  It is threaded
/// through every evaluation call as the seam for future cache-invalidation
/// policy; the core memoizes globally and never reconsiders a valid thunk.
#[derive(Clone, Copy, PartialEq, Eq, Structural, Debug)]
pub struct Txn(pub u64);

/// A fresh transaction token.
pub fn txn(ctx: &mut Ctx) -> (t: Txn)
    requires
        old(ctx).wf(),
        old(ctx).uid < u64::MAX,
    ensures
        final(ctx).wf(),
        final(ctx).uid == old(ctx).uid + 1,
        final(ctx).heap == old(ctx).heap,
        t == (Txn((old(ctx).uid + 1) as u64)),
{
    Txn(ctx.next_uid())
}

/// A symbolic name, for diagnostics around the runtime.
#[derive(Clone, PartialEq, Eq, Hash, Debug)]
pub struct Sym {
    pub u: String,
}

/// The permanent identity of a heap object.
#[derive(Clone, Copy, PartialEq, Eq, Hash, Structural, Debug)]
pub struct STag {
    pub uid: u64,
}

impl STag {
    /// A fresh stable tag, consuming one identifier.
    pub fn new(ctx: &mut Ctx) -> (r: STag)
        requires
            old(ctx).wf(),
            old(ctx).uid < u64::MAX,
        ensures
            final(ctx).wf(),
            final(ctx).uid == old(ctx).uid + 1,
            final(ctx).heap == old(ctx).heap,
            r == (STag { uid: (old(ctx).uid + 1) as u64 }),
    {
        STag { uid: ctx.next_uid() }
    }
}

/// The identity of one reference instance to an object — not of the object
/// itself.  Minted fresh every time a reference is taken, it lets the heap
/// distinguish the same object reached via two different call sites.
#[derive(Clone, Copy, PartialEq, Eq, Hash, Structural, Debug)]
pub struct RTag {
    pub uid: u64,
}

impl RTag {
    /// A fresh retain tag, consuming one identifier.
    pub fn new(ctx: &mut Ctx) -> (r: RTag)
        requires
            old(ctx).wf(),
            old(ctx).uid < u64::MAX,
        ensures
            final(ctx).wf(),
            final(ctx).uid == old(ctx).uid + 1,
            final(ctx).heap == old(ctx).heap,
            r == (RTag { uid: (old(ctx).uid + 1) as u64 }),
    {
        RTag { uid: ctx.next_uid() }
    }

    /// An identical copy, preserving the reference identity.
    pub fn _clone_exact(&self) -> (r: RTag)
        ensures
            r == *self,
    {
        RTag { uid: self.uid }
    }
}

/// A full reference identity: which object, through which reference path.
#[derive(PartialEq, Eq, Hash, Structural, Debug)]
pub struct Tag {
    pub stable: STag,
    pub retain: RTag,
}

impl Tag {
    /// A first reference to the object named by `stable`, with a fresh
    /// retain tag.
    pub fn new(ctx: &mut Ctx, stable: STag) -> (r: Tag)
        requires
            old(ctx).wf(),
            old(ctx).uid < u64::MAX,
        ensures
            final(ctx).wf(),
            final(ctx).uid == old(ctx).uid + 1,
            final(ctx).heap == old(ctx).heap,
            r.stable == stable,
            r.retain == (RTag { uid: (old(ctx).uid + 1) as u64 }),
    {
        let retain = RTag::new(ctx);
        Tag { stable, retain }
    }

    /// A new reference to the same object: same stable tag, fresh retain
    /// tag.
    pub fn clone_ref(&self, ctx: &mut Ctx) -> (r: Tag)
        requires
            old(ctx).wf(),
            old(ctx).uid < u64::MAX,
        ensures
            final(ctx).wf(),
            final(ctx).uid == old(ctx).uid + 1,
            final(ctx).heap == old(ctx).heap,
            r.stable == self.stable,
            r.retain == (RTag { uid: (old(ctx).uid + 1) as u64 }),
    {
        Tag { stable: self.stable, retain: RTag::new(ctx) }
    }

    /// An identical reference: same stable tag, same retain tag.  Used when
    /// re-deriving a handle that is already held.
    pub fn _clone_exact(&self) -> (r: Tag)
        ensures
            r == *self,
    {
        Tag { stable: self.stable, retain: self.retain._clone_exact() }
    }
}

} // verus!
