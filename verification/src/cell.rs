//! Data cells: lazily materialized, typed payload slots.
//!
//! A data cell backs a thunk's result.  Its payload is `None` until first
//! materialization; once set it is never reset to `None` within the cell's
//! lifetime.  The allocator held in [`DataCode`] is run at most once, on
//! first write access, separately from the owning thunk's own memoization
//! state.  The consumer/producer counters are the bookkeeping hook where
//! reference-counted reclamation would attach; the core records the producer
//! at construction and defines no reclamation.

use vstd::prelude::*;
use crate::error::RtError;
use crate::ids::{STag, Txn};
use crate::runtime::Ctx;
use crate::value::{Ty, Val, val_ty};

verus! {

/// The bookkeeping state of one payload slot.
#[derive(Clone, Copy, PartialEq, Eq, Structural, Debug)]
pub struct DataCell {
    /// The transaction that last touched the cell (reserved seam; the core
    /// never writes it).
    pub curr_txn: Option<Txn>,
    /// How many live references read this cell.
    pub l_consumers: u64,
    /// How many reading references have been dropped.
    pub d_consumers: u64,
    /// How many live thunks write into this cell.
    pub l_producers: u64,
    /// How many producing thunks have been dropped.
    pub d_producers: u64,
    /// The payload: `None` until first materialization, then never `None`
    /// again.
    pub payload: Option<Val>,
}

/// The cell of a freshly constructed data object: no payload, no
/// bookkeeping.
pub open spec fn empty_cell() -> DataCell {
    DataCell {
        curr_txn: None,
        l_consumers: 0,
        d_consumers: 0,
        l_producers: 0,
        d_producers: 0,
        payload: None,
    }
}

impl Default for DataCell {
    /// The cell of a freshly constructed data object.
    fn default() -> (r: DataCell)
        ensures
            r == empty_cell(),
    {
        DataCell {
            curr_txn: None,
            l_consumers: 0,
            d_consumers: 0,
            l_producers: 0,
            d_producers: 0,
            payload: None,
        }
    }
}

/// The code of a data cell: the value its allocator materializes on first
/// write access.  A cell constructed without an allocator fails with
/// `MissingAllocator` when first accessed for writing.
#[derive(Clone, Copy, PartialEq, Eq, Structural, Debug)]
pub struct DataCode {
    pub alloc: Option<Val>,
}

/// A data object: a typed, lazily materialized payload slot plus its
/// bookkeeping, owned by the heap.
#[derive(Clone, Copy, PartialEq, Eq, Structural, Debug)]
pub struct Data {
    pub stable: STag,
    pub ty: Ty,
    pub cell: DataCell,
    pub code: DataCode,
}

/// A data object is internally consistent: whatever its cell holds, and
/// whatever its allocator would materialize, has the declared type.
pub open spec fn data_wf(d: Data) -> bool {
    &&& match d.cell.payload {
        Some(v) => val_ty(v) == d.ty,
        None => true,
    }
    &&& match d.code.alloc {
        Some(v) => val_ty(v) == d.ty,
        None => true,
    }
}

impl Data {
    /// A fresh data object under a newly issued stable tag, with an empty
    /// cell.  Whatever the allocator would materialize must have the
    /// declared type.
    pub fn new(ctx: &mut Ctx, ty: Ty, code: DataCode) -> (d: Data)
        requires
            old(ctx).wf(),
            old(ctx).uid < u64::MAX,
            match code.alloc {
                Some(v) => val_ty(v) == ty,
                None => true,
            },
        ensures
            final(ctx).wf(),
            final(ctx).uid == old(ctx).uid + 1,
            final(ctx).heap == old(ctx).heap,
            d == (Data {
                stable: STag { uid: (old(ctx).uid + 1) as u64 },
                ty,
                cell: empty_cell(),
                code,
            }),
            data_wf(d),
    {
        Data { stable: STag::new(ctx), ty, cell: DataCell::default(), code }
    }

    /// Moves this data object into the heap, under its own stable tag,
    /// which must not be taken yet.  Returns the stable tag.
    pub fn _put_obj(self, ctx: &mut Ctx) -> (s: STag)
        requires
            old(ctx).wf(),
            0 < self.stable.uid <= old(ctx).uid,
            !old(ctx).hm().contains_key(self.stable.uid),
            data_wf(self),
        ensures
            final(ctx).wf(),
            final(ctx).uid == old(ctx).uid,
            final(ctx).heap.stable == old(ctx).heap.stable,
            final(ctx).hm() == old(ctx).hm().insert(
                self.stable.uid,
                crate::heap::HeapEntry::Data(self),
            ),
            s == self.stable,
    {
        let stable = self.stable;
        crate::runtime::put_entry(ctx, stable, crate::heap::HeapEntry::Data(self));
        stable
    }

    /// An identical handle to the same data object.
    pub fn _clone_exact(&self) -> (r: Data)
        ensures
            r == *self,
    {
        *self
    }
}

/// An unresolved reference to a data object: the stable tag it lives under
/// and the payload type the holder expects there.
#[derive(Clone, Copy, PartialEq, Eq, Structural, Debug)]
pub struct LDataRef {
    pub stable: STag,
    pub ty: Ty,
}

impl LDataRef {
    /// A reference to the data object expected under `stable`.
    pub fn _from_stag(stable: STag, ty: Ty) -> (r: LDataRef)
        ensures
            r == (LDataRef { stable, ty }),
    {
        LDataRef { stable, ty }
    }
}

/// A resolved handle to a data object: the referent existed, as a data
/// object of the expected type, when the handle was taken.
#[derive(Clone, Copy, PartialEq, Eq, Structural, Debug)]
pub struct LData {
    pub stable: STag,
    pub ty: Ty,
}

/// Whether `s` resolves as a data object of payload type `ty`.
pub open spec fn data_res_ok(
    m: Map<u64, crate::heap::HeapEntry>,
    s: u64,
    ty: Ty,
) -> bool {
    crate::heap::is_data_at(m, s) && crate::heap::data_at(m, s).ty == ty
}

impl LDataRef {
    /// Resolves this reference against the heap: the referent must exist
    /// and be a data object of the expected payload type.
    pub fn _get_obj(&self, ctx: &Ctx) -> (r: Result<LData, RtError>)
        ensures
            match r {
                Ok(ld) => data_res_ok(ctx.hm(), self.stable.uid, self.ty) && ld == (LData {
                    stable: self.stable,
                    ty: self.ty,
                }),
                Err(RtError::ObjectNotFound) => !ctx.hm().contains_key(self.stable.uid),
                Err(RtError::TypeMismatch) => ctx.hm().contains_key(self.stable.uid)
                    && !data_res_ok(ctx.hm(), self.stable.uid, self.ty),
                Err(_) => false,
            },
    {
        match ctx.heap.objs.get(&self.stable.uid) {
            None => Err(RtError::ObjectNotFound),
            Some(crate::heap::HeapEntry::Thunk(_)) => Err(RtError::TypeMismatch),
            Some(crate::heap::HeapEntry::Data(d)) => {
                if d.ty == self.ty {
                    Ok(LData { stable: self.stable, ty: self.ty })
                } else {
                    Err(RtError::TypeMismatch)
                }
            },
        }
    }
}

impl LData {
    /// A read-only view of the payload.  Every reader of a materialized
    /// cell observes the one value the heap holds; a cell whose allocator
    /// has never run is an uninitialized payload.
    pub fn get(&self, ctx: &Ctx, t: Txn) -> (r: Result<Val, RtError>)
        ensures
            match r {
                Ok(v) => data_res_ok(ctx.hm(), self.stable.uid, self.ty)
                    && crate::heap::data_payload(ctx.hm(), self.stable.uid) == Some(v),
                Err(RtError::ObjectNotFound) => !ctx.hm().contains_key(self.stable.uid),
                Err(RtError::TypeMismatch) => ctx.hm().contains_key(self.stable.uid)
                    && !data_res_ok(ctx.hm(), self.stable.uid, self.ty),
                Err(RtError::UninitializedPayload) => data_res_ok(
                    ctx.hm(),
                    self.stable.uid,
                    self.ty,
                ) && crate::heap::data_payload(ctx.hm(), self.stable.uid) is None,
                Err(_) => false,
            },
    {
        match ctx.heap.objs.get(&self.stable.uid) {
            None => Err(RtError::ObjectNotFound),
            Some(crate::heap::HeapEntry::Thunk(_)) => Err(RtError::TypeMismatch),
            Some(crate::heap::HeapEntry::Data(d)) => {
                if d.ty == self.ty {
                    match d.cell.payload {
                        Some(v) => Ok(v),
                        None => Err(RtError::UninitializedPayload),
                    }
                } else {
                    Err(RtError::TypeMismatch)
                }
            },
        }
    }

    /// Write access to the payload: if the cell is unset, the allocator
    /// materializes it, exactly once in the cell's lifetime — a later call
    /// finds the payload set and never runs the allocator again.
    pub fn get_mut(&self, ctx: &mut Ctx, t: Txn) -> (r: Result<Val, RtError>)
        requires
            old(ctx).wf(),
        ensures
            final(ctx).wf(),
            final(ctx).uid == old(ctx).uid,
            final(ctx).heap.stable == old(ctx).heap.stable,
            crate::heap::heap_evolves(old(ctx).hm(), final(ctx).hm()),
            match r {
                Ok(v) => data_res_ok(old(ctx).hm(), self.stable.uid, self.ty) && match crate::heap::data_payload(
                    old(ctx).hm(),
                    self.stable.uid,
                ) {
                    Some(w) => v == w && final(ctx).hm() == old(ctx).hm(),
                    None => {
                        &&& crate::heap::data_at(old(ctx).hm(), self.stable.uid).code.alloc
                            == Some(v)
                        &&& final(ctx).hm() == old(ctx).hm().insert(
                            self.stable.uid,
                            crate::heap::HeapEntry::Data(
                                crate::runtime::with_payload(
                                    crate::heap::data_at(old(ctx).hm(), self.stable.uid),
                                    v,
                                ),
                            ),
                        )
                    },
                },
                Err(RtError::ObjectNotFound) => !old(ctx).hm().contains_key(self.stable.uid)
                    && final(ctx).hm() == old(ctx).hm(),
                Err(RtError::TypeMismatch) => old(ctx).hm().contains_key(self.stable.uid)
                    && !data_res_ok(old(ctx).hm(), self.stable.uid, self.ty) && final(ctx).hm()
                    == old(ctx).hm(),
                Err(RtError::MissingAllocator) => data_res_ok(
                    old(ctx).hm(),
                    self.stable.uid,
                    self.ty,
                ) && crate::heap::data_payload(old(ctx).hm(), self.stable.uid) is None
                    && crate::heap::data_at(old(ctx).hm(), self.stable.uid).code.alloc is None
                    && final(ctx).hm() == old(ctx).hm(),
                Err(_) => false,
            },
    {
        let ghost m0 = ctx.hm();
        proof {
            crate::runtime::lemma_evolves_refl(m0);
        }
        let s = self.stable.uid;
        match ctx.heap.objs.remove(&s) {
            None => {
                proof {
                    assert(ctx.hm() =~= m0);
                }
                Err(RtError::ObjectNotFound)
            },
            Some(crate::heap::HeapEntry::Thunk(th)) => {
                ctx.heap.objs.insert(s, crate::heap::HeapEntry::Thunk(th));
                proof {
                    assert(ctx.hm() =~= m0);
                }
                Err(RtError::TypeMismatch)
            },
            Some(crate::heap::HeapEntry::Data(d)) => {
                if d.ty != self.ty {
                    ctx.heap.objs.insert(s, crate::heap::HeapEntry::Data(d));
                    proof {
                        assert(ctx.hm() =~= m0);
                    }
                    Err(RtError::TypeMismatch)
                } else {
                    match d.cell.payload {
                        Some(v) => {
                            ctx.heap.objs.insert(s, crate::heap::HeapEntry::Data(d));
                            proof {
                                assert(ctx.hm() =~= m0);
                            }
                            Ok(v)
                        },
                        None => {
                            match d.code.alloc {
                                None => {
                                    ctx.heap.objs.insert(s, crate::heap::HeapEntry::Data(d));
                                    proof {
                                        assert(ctx.hm() =~= m0);
                                    }
                                    Err(RtError::MissingAllocator)
                                },
                                Some(av) => {
                                    let nd = Data {
                                        stable: d.stable,
                                        ty: d.ty,
                                        cell: DataCell {
                                            curr_txn: d.cell.curr_txn,
                                            l_consumers: d.cell.l_consumers,
                                            d_consumers: d.cell.d_consumers,
                                            l_producers: d.cell.l_producers,
                                            d_producers: d.cell.d_producers,
                                            payload: Some(av),
                                        },
                                        code: d.code,
                                    };
                                    ctx.heap.objs.insert(s, crate::heap::HeapEntry::Data(nd));
                                    proof {
                                        let e2 = crate::heap::HeapEntry::Data(
                                            crate::runtime::with_payload(
                                                crate::heap::data_at(m0, s),
                                                av,
                                            ),
                                        );
                                        assert(crate::heap::HeapEntry::Data(nd) == e2);
                                        assert(ctx.hm() =~= m0.insert(s, e2));
                                        assert(m0.contains_key(s));
                                        assert(crate::heap::entry_wf(m0, s));
                                        // No memoized thunk depends on an
                                        // unmaterialized cell.
                                        assert forall|k: u64| #[trigger]
                                            crate::heap::is_thunk_at(m0, k) && crate::heap::thunk_at(
                                                m0,
                                                k,
                                            ).state == crate::thunk::ThunkState::Valid implies crate::heap::thunk_at(
                                            m0,
                                            k,
                                        ).data != Some(STag { uid: s }) by {
                                            assert(crate::heap::entry_wf(m0, k));
                                        }
                                        assert(crate::heap::thunk_valid_ok(m0.insert(s, e2), s));
                                        crate::runtime::lemma_wf_update_entry(m0, s, e2);
                                    }
                                    Ok(av)
                                },
                            }
                        },
                    }
                }
            },
        }
    }
}

} // verus!
