//! The evaluation context and the central dispatcher.
//!
//! A context owns the identity counter and the root heap; every heap
//! operation takes it explicitly.  Construction is single-threaded through
//! `&mut Ctx`; reads of memoized results go through `&Ctx`, so any number of
//! readers may observe a result concurrently while a writer is exclusive —
//! the reader/writer discipline of the data cells, enforced at compile time.
//!
//! Evaluation is the dispatcher [`force_at`]: resolve the thunk, return at
//! once if it is memoized, fail if it is mid-evaluation, otherwise mark it a
//! black hole, force its operands depth-first, write the result into its
//! backing cell, and mark it valid.  A failed evaluation deliberately leaves
//! the black hole in place.

use vstd::prelude::*;
use crate::error::RtError;
use crate::heap::{
    Heap, HeapEntry, black_preserved, const_ready, data_at, data_payload, entry_evolves,
    entry_keyed, heap_evolves, heap_wf, insertable, is_data_at, is_thunk_at, no_new_black,
    op_ready, operand_ready, operand_valid, operands_valid, own_cell_ok, payload_val, settled,
    state_le, thunk_at, thunk_payload, thunk_res_ok, thunk_valid_ok, code_result,
    producers_injective,
};
use crate::cell::Data;
use crate::ids::{STag, Txn};
use crate::thunk::{EntryCode, Thunk, ThunkState};
use crate::value::{Ty, Val, val_ty};

verus! {

/// One evaluation context: the identity counter and the root heap.
pub struct Ctx {
    /// The identity counter: monotonic, starting above zero.  Zero is
    /// reserved for the root heap object.  Overflow is a fatal invariant
    /// violation, ruled out by contract.
    pub uid: u64,
    /// The root heap of this context.
    pub heap: Heap,
}

impl Ctx {
    /// The heap contents as a map from stable identifiers to objects.
    pub open spec fn hm(&self) -> Map<u64, HeapEntry> {
        self.heap.objs@
    }

    /// The context invariant: the root heap is well formed, carries the
    /// reserved identity zero, and every stored identifier was issued by the
    /// counter.
    pub open spec fn wf(&self) -> bool {
        &&& heap_wf(self.hm())
        &&& forall|k: u64| #[trigger] self.hm().contains_key(k) ==> 0 < k <= self.uid
        &&& forall|k: u64| #[trigger]
            is_thunk_at(self.hm(), k) ==> match thunk_at(self.hm(), k).data {
                Some(ds) => ds.uid <= self.uid,
                None => true,
            }
        &&& self.heap.stable.uid == 0
    }

    /// A fresh context: counter at zero, empty root heap.
    pub fn new() -> (c: Ctx)
        ensures
            c.wf(),
            c.uid == 0,
            c.hm() == Map::<u64, HeapEntry>::empty(),
    {
        Ctx { uid: 0, heap: Heap::new_root() }
    }

    /// The next identifier in the context-local sequence.  The sequence must
    /// not wrap around.
    pub fn next_uid(&mut self) -> (u: u64)
        requires
            old(self).wf(),
            old(self).uid < u64::MAX,
        ensures
            final(self).wf(),
            final(self).uid == old(self).uid + 1,
            final(self).heap == old(self).heap,
            u == final(self).uid,
    {
        let next_u = self.uid + 1;
        self.uid = next_u;
        next_u
    }
}

/// What one evaluation may do to a context: nothing to the counter or the
/// heap identity, and only an evolution of the heap contents that completes
/// no thunk that was already in progress.
pub open spec fn eval_frame(c1: Ctx, c2: Ctx) -> bool {
    &&& c2.wf()
    &&& c2.uid == c1.uid
    &&& c2.heap.stable == c1.heap.stable
    &&& heap_evolves(c1.hm(), c2.hm())
    &&& black_preserved(c1.hm(), c2.hm())
}

// ---------------------------------------------------------------------------
// Preservation lemmas for the arena invariant.
// ---------------------------------------------------------------------------

/// Every entry evolves into itself.
pub proof fn lemma_entry_evolves_refl(e: HeapEntry)
    ensures
        entry_evolves(e, e),
{
    match e {
        HeapEntry::Data(_) => {},
        HeapEntry::Thunk(t) => {
            match t.state {
                ThunkState::Empty => {},
                ThunkState::BlackHole => {},
                ThunkState::Valid => {},
            }
        },
    }
}

/// Evolution of the heap is reflexive.
pub proof fn lemma_evolves_refl(m: Map<u64, HeapEntry>)
    ensures
        heap_evolves(m, m),
{
    assert forall|k: u64| #[trigger] m.contains_key(k) implies entry_evolves(m[k], m[k]) by {
        lemma_entry_evolves_refl(m[k]);
    }
}

/// Evolution of one entry is transitive.
pub proof fn lemma_entry_evolves_trans(e1: HeapEntry, e2: HeapEntry, e3: HeapEntry)
    requires
        entry_evolves(e1, e2),
        entry_evolves(e2, e3),
    ensures
        entry_evolves(e1, e3),
{
    match (e1, e2, e3) {
        (HeapEntry::Thunk(t1), HeapEntry::Thunk(t2), HeapEntry::Thunk(t3)) => {
            match (t1.state, t2.state, t3.state) {
                (ThunkState::Empty, _, _) => {},
                (ThunkState::BlackHole, _, _) => {},
                (ThunkState::Valid, _, _) => {},
            }
        },
        _ => {},
    }
}

/// Evolution of the heap is transitive.
pub proof fn lemma_evolves_trans(m1: Map<u64, HeapEntry>, m2: Map<u64, HeapEntry>, m3: Map<
    u64,
    HeapEntry,
>)
    requires
        heap_evolves(m1, m2),
        heap_evolves(m2, m3),
    ensures
        heap_evolves(m1, m3),
{
    assert forall|k: u64| #[trigger] m1.contains_key(k) implies entry_evolves(m1[k], m3[k]) by {
        assert(entry_evolves(m1[k], m2[k]));
        assert(m2.contains_key(k));
        assert(entry_evolves(m2[k], m3[k]));
        lemma_entry_evolves_trans(m1[k], m2[k], m3[k]);
    }
    assert forall|k: u64|
        is_thunk_at(m1, k) && #[trigger] thunk_at(m1, k).state == ThunkState::Valid implies
        thunk_payload(m3, k) == thunk_payload(m1, k) by {
        assert(m2.contains_key(k));
        assert(entry_evolves(m1[k], m2[k]));
        assert(is_thunk_at(m2, k) && thunk_at(m2, k).state == ThunkState::Valid);
        assert(thunk_payload(m2, k) == thunk_payload(m1, k));
        assert(thunk_payload(m3, k) == thunk_payload(m2, k));
    }
}

/// Replacing the entry under `s` by an evolution of itself — one that keeps
/// any payload a memoized thunk depends on, and that satisfies its own
/// memoization contract if it arrives valid — preserves the arena invariant
/// and is itself an evolution of the heap.
pub proof fn lemma_wf_update_entry(m: Map<u64, HeapEntry>, s: u64, e: HeapEntry)
    requires
        heap_wf(m),
        m.contains_key(s),
        entry_keyed(s, e),
        entry_evolves(m[s], e),
        (m[s] is Data && !(match (m[s], e) {
            (HeapEntry::Data(d1), HeapEntry::Data(d2)) => d2.cell.payload == d1.cell.payload,
            _ => false,
        })) ==> forall|k: u64| #[trigger]
            is_thunk_at(m, k) && thunk_at(m, k).state == ThunkState::Valid ==> thunk_at(
                m,
                k,
            ).data != Some(STag { uid: s }),
        match e {
            HeapEntry::Data(d) => crate::cell::data_wf(d),
            HeapEntry::Thunk(_) => true,
        },
        thunk_valid_ok(m.insert(s, e), s),
    ensures
        heap_wf(m.insert(s, e)),
        heap_evolves(m, m.insert(s, e)),
{
    let m2 = m.insert(s, e);
    assert(m2.dom() =~= m.dom());

    // Every entry evolves in place.
    assert forall|k: u64| #[trigger] m.contains_key(k) implies entry_evolves(m[k], m2[k]) by {
        if k != s {
            lemma_entry_evolves_refl(m[k]);
        }
    }

    // The payload behind any memoized thunk is untouched.
    assert forall|k: u64|
        is_thunk_at(m, k) && #[trigger] thunk_at(m, k).state == ThunkState::Valid implies
        thunk_payload(m2, k) == thunk_payload(m, k) by {
        assert(crate::heap::entry_wf(m, k));
        let t = thunk_at(m, k);
        match t.data {
            Some(ds) => {
                if ds.uid == s {
                    if m[s] is Data {
                        assert(t.data != Some(STag { uid: s }) || (match (m[s], e) {
                            (HeapEntry::Data(d1), HeapEntry::Data(d2)) => d2.cell.payload
                                == d1.cell.payload,
                            _ => false,
                        }));
                        assert(ds == STag { uid: s });
                    }
                }
            },
            None => {},
        }
    }
    assert(heap_evolves(m, m2));

    // Every entry stays well formed.
    assert forall|k: u64| #[trigger] m2.contains_key(k) implies crate::heap::entry_wf(m2, k) by {
        assert(m.contains_key(k));
        assert(crate::heap::entry_wf(m, k));
        lemma_valid_ok_preserved(m, m2, k, s, e);
    }
    assert(producers_injective(m2)) by {
        assert forall|k1: u64, k2: u64|
            is_thunk_at(m2, k1) && is_thunk_at(m2, k2) && k1 != k2 implies !(thunk_at(
            m2,
            k1,
        ).data is Some && thunk_at(m2, k1).data == thunk_at(m2, k2).data) by {
            assert(is_thunk_at(m, k1));
            assert(is_thunk_at(m, k2));
            assert(thunk_at(m2, k1).data == thunk_at(m, k1).data);
            assert(thunk_at(m2, k2).data == thunk_at(m, k2).data);
        }
    }
}

/// The memoization contract of the thunk under `k` survives an in-place
/// update of the entry under `s` as allowed by `lemma_wf_update_entry`.
proof fn lemma_valid_ok_preserved(m: Map<u64, HeapEntry>, m2: Map<u64, HeapEntry>, k: u64, s: u64, e: HeapEntry)
    requires
        heap_wf(m),
        m.contains_key(s),
        m.contains_key(k),
        m2 == m.insert(s, e),
        entry_keyed(s, e),
        entry_evolves(m[s], e),
        match e {
            HeapEntry::Data(d) => crate::cell::data_wf(d),
            HeapEntry::Thunk(_) => true,
        },
        forall|j: u64|
            is_thunk_at(m, j) && #[trigger] thunk_at(m, j).state == ThunkState::Valid ==>
                thunk_payload(m2, j) == thunk_payload(m, j),
        thunk_valid_ok(m2, s),
    ensures
        crate::heap::entry_wf(m2, k),
{
    assert(crate::heap::entry_wf(m, k));
    if k == s {
        if e is Thunk && thunk_at(m2, s).state == ThunkState::Valid {
            assert(thunk_valid_ok(m2, s));
        }
    } else {
        assert(m2[k] == m[k]);
        if is_thunk_at(m2, k) && thunk_at(m2, k).state == ThunkState::Valid {
            let t = thunk_at(m, k);
            assert(t.state == ThunkState::Valid);
            match (t.code.entry, t.data) {
                (Some(ec), Some(ds)) => {
                    // The backing cell still resolves, to the same payload.
                    assert(is_data_at(m, ds.uid));
                    if ds.uid == s {
                        assert(m[s] is Data);
                        assert(e is Data);
                        assert(data_at(m2, ds.uid).ty == t.ty);
                    }
                    assert(is_data_at(m2, ds.uid) && data_at(m2, ds.uid).ty == t.ty);
                    assert(thunk_payload(m2, k) == thunk_payload(m, k));
                    assert(data_payload(m2, ds.uid) == data_payload(m, ds.uid));
                    // Every operand stays memoized, with its payload.
                    assert forall|o: u64, oty: Ty| #[trigger]
                        operand_valid(m, o, oty) implies operand_valid(m2, o, oty) && payload_val(
                        m2,
                        o,
                    ) == payload_val(m, o) by {
                        if o == s {
                            assert(m[s] is Thunk);
                            assert(e is Thunk);
                            assert(state_le(thunk_at(m, s).state, thunk_at(m2, s).state));
                        }
                        assert(thunk_payload(m2, o) == thunk_payload(m, o));
                    }
                    assert(operands_valid(m, ec, t.ty));
                    match ec {
                        EntryCode::Constant(_) => {},
                        EntryCode::Add { x1, x2 } => {
                            assert(operand_valid(m, x1.uid, Ty::Num));
                            assert(operand_valid(m, x2.uid, Ty::Num));
                            assert(code_result(m2, ec) == code_result(m, ec));
                        },
                        EntryCode::Switch { cond, x1, x2 } => {
                            assert(operand_valid(m, cond.uid, Ty::Bool));
                            assert(operand_valid(m, x1.uid, t.ty));
                            assert(operand_valid(m, x2.uid, t.ty));
                            assert(code_result(m2, ec) == code_result(m, ec));
                        },
                    }
                    assert(operands_valid(m2, ec, t.ty));
                },
                _ => {},
            }
        }
    }
}

/// Appending a fresh entry preserves the arena invariant: nothing existing
/// refers to the new tag, and the new entry arrives consistent.
pub proof fn lemma_wf_insert_fresh(m: Map<u64, HeapEntry>, s: u64, e: HeapEntry)
    requires
        heap_wf(m),
        insertable(m, s, e),
    ensures
        heap_wf(m.insert(s, e)),
{
    let m2 = m.insert(s, e);
    assert forall|k: u64| #[trigger] m2.contains_key(k) implies crate::heap::entry_wf(m2, k) by {
        if k == s {
            match e {
                HeapEntry::Data(_) => {},
                HeapEntry::Thunk(t) => {
                    assert(thunk_at(m2, s).state == ThunkState::Empty);
                },
            }
        } else {
            assert(m.contains_key(k));
            assert(crate::heap::entry_wf(m, k));
            assert(m2[k] == m[k]);
            if is_thunk_at(m2, k) && thunk_at(m2, k).state == ThunkState::Valid {
                let t = thunk_at(m, k);
                match (t.code.entry, t.data) {
                    (Some(ec), Some(ds)) => {
                        assert(is_data_at(m, ds.uid));
                        assert(ds.uid != s);
                        assert(data_payload(m2, ds.uid) == data_payload(m, ds.uid));
                        assert forall|o: u64, oty: Ty| #[trigger]
                            operand_valid(m, o, oty) implies operand_valid(m2, o, oty)
                            && payload_val(m2, o) == payload_val(m, o) by {
                            assert(o != s);
                            assert(crate::heap::entry_wf(m, o));
                            let to = thunk_at(m, o);
                            match to.data {
                                Some(dso) => {
                                    if to.state == ThunkState::Valid {
                                        assert(is_data_at(m, dso.uid));
                                        assert(dso.uid != s);
                                    }
                                },
                                None => {},
                            }
                        }
                        assert(operands_valid(m, ec, t.ty));
                        match ec {
                            EntryCode::Constant(_) => {},
                            EntryCode::Add { x1, x2 } => {
                                assert(operand_valid(m, x1.uid, Ty::Num));
                                assert(operand_valid(m, x2.uid, Ty::Num));
                                assert(code_result(m2, ec) == code_result(m, ec));
                            },
                            EntryCode::Switch { cond, x1, x2 } => {
                                assert(operand_valid(m, cond.uid, Ty::Bool));
                                assert(operand_valid(m, x1.uid, t.ty));
                                assert(operand_valid(m, x2.uid, t.ty));
                                assert(code_result(m2, ec) == code_result(m, ec));
                            },
                        }
                        assert(operands_valid(m2, ec, t.ty));
                    },
                    _ => {},
                }
            }
        }
    }
    assert(producers_injective(m2)) by {
        assert forall|k1: u64, k2: u64|
            is_thunk_at(m2, k1) && is_thunk_at(m2, k2) && k1 != k2 implies !(thunk_at(
            m2,
            k1,
        ).data is Some && thunk_at(m2, k1).data == thunk_at(m2, k2).data) by {
            if k1 != s && k2 != s {
                assert(is_thunk_at(m, k1));
                assert(is_thunk_at(m, k2));
            } else if k1 == s {
                assert(is_thunk_at(m, k2));
                match e {
                    HeapEntry::Thunk(t) => {
                        assert(crate::heap::fresh_cell_link(m, t));
                    },
                    HeapEntry::Data(_) => {},
                }
            } else {
                assert(is_thunk_at(m, k1));
                match e {
                    HeapEntry::Thunk(t) => {
                        assert(crate::heap::fresh_cell_link(m, t));
                    },
                    HeapEntry::Data(_) => {},
                }
            }
        }
    }
}

/// An operand that was ready stays ready across an evaluation that
/// succeeded: memoized operands stay memoized, and an unevaluated constant
/// is either still untouched or now memoized.
pub proof fn lemma_ready_preserved(m1: Map<u64, HeapEntry>, m2: Map<u64, HeapEntry>, o: u64, ty: Ty)
    requires
        operand_ready(m1, o, ty),
        heap_evolves(m1, m2),
        no_new_black(m1, m2),
    ensures
        operand_ready(m2, o, ty),
{
    assert(m1.contains_key(o));
    assert(entry_evolves(m1[o], m2[o]));
    if settled(m1, o, ty) {
        assert(state_le(ThunkState::Valid, thunk_at(m2, o).state));
        assert(settled(m2, o, ty));
    } else {
        assert(const_ready(m1, o, ty));
        assert(thunk_at(m2, o).state != ThunkState::BlackHole);
        if thunk_at(m2, o).state == ThunkState::Valid {
            assert(settled(m2, o, ty));
        } else {
            assert(thunk_at(m2, o).state == ThunkState::Empty) by {
                match (thunk_at(m1, o).state, thunk_at(m2, o).state) {
                    (ThunkState::Empty, ThunkState::Empty) => {},
                    (ThunkState::Empty, ThunkState::BlackHole) => {},
                    (ThunkState::Empty, ThunkState::Valid) => {},
                    _ => {},
                }
            }
            let ds = thunk_at(m1, o).data->Some_0;
            assert(is_data_at(m1, ds.uid));
            assert(m1.contains_key(ds.uid));
            assert(entry_evolves(m1[ds.uid], m2[ds.uid]));
            assert(own_cell_ok(m2, o, ty));
            assert(const_ready(m2, o, ty));
        }
    }
}

/// An operand that was ready is still ready after some other thunk's entry
/// is replaced in place by another thunk entry.
pub proof fn lemma_ready_other_thunk(m: Map<u64, HeapEntry>, s: u64, e: HeapEntry, o: u64, ty: Ty)
    requires
        operand_ready(m, o, ty),
        m.contains_key(s),
        m[s] is Thunk,
        e is Thunk,
        o != s,
    ensures
        operand_ready(m.insert(s, e), o, ty),
{
    let m2 = m.insert(s, e);
    assert(m2[o] == m[o]);
    if const_ready(m, o, ty) {
        let ds = thunk_at(m, o).data->Some_0;
        assert(is_data_at(m, ds.uid));
        assert(ds.uid != s);
        assert(m2[ds.uid] == m[ds.uid]);
    }
}

// ---------------------------------------------------------------------------
// The arena mutations of evaluation and construction.
// ---------------------------------------------------------------------------

/// The thunk `t` with its memoization state replaced.
pub open spec fn with_state(t: Thunk, st: ThunkState) -> Thunk {
    Thunk { state: st, ..t }
}

/// Appends a fresh entry to the context's heap.
pub(crate) fn put_entry(ctx: &mut Ctx, stable: STag, e: HeapEntry)
    requires
        old(ctx).wf(),
        0 < stable.uid <= old(ctx).uid,
        insertable(old(ctx).hm(), stable.uid, e),
        match e {
            HeapEntry::Thunk(t) => match t.data {
                Some(ds) => ds.uid <= old(ctx).uid,
                None => true,
            },
            HeapEntry::Data(_) => true,
        },
    ensures
        final(ctx).wf(),
        final(ctx).uid == old(ctx).uid,
        final(ctx).heap.stable == old(ctx).heap.stable,
        final(ctx).hm() == old(ctx).hm().insert(stable.uid, e),
{
    proof {
        lemma_wf_insert_fresh(old(ctx).hm(), stable.uid, e);
    }
    ctx.heap.insert(stable, e);
    proof {
        assert forall|k: u64| #[trigger] is_thunk_at(ctx.hm(), k) implies (match thunk_at(
            ctx.hm(),
            k,
        ).data {
            Some(ds) => ds.uid <= ctx.uid,
            None => true,
        }) by {
            if k != stable.uid {
                assert(ctx.hm()[k] == old(ctx).hm()[k]);
                assert(is_thunk_at(old(ctx).hm(), k));
            }
        }
    }
}

/// Marks an unevaluated thunk as mid-evaluation.
fn mark_black_hole(ctx: &mut Ctx, s: u64)
    requires
        old(ctx).wf(),
        is_thunk_at(old(ctx).hm(), s),
        thunk_at(old(ctx).hm(), s).state == ThunkState::Empty,
    ensures
        final(ctx).wf(),
        final(ctx).uid == old(ctx).uid,
        final(ctx).heap.stable == old(ctx).heap.stable,
        final(ctx).hm() == old(ctx).hm().insert(
            s,
            HeapEntry::Thunk(with_state(thunk_at(old(ctx).hm(), s), ThunkState::BlackHole)),
        ),
        heap_evolves(old(ctx).hm(), final(ctx).hm()),
{
    let ghost m0 = ctx.hm();
    match ctx.heap.objs.remove(&s) {
        Some(HeapEntry::Thunk(t)) => {
            let nt = Thunk {
                stable: t.stable,
                data: t.data,
                state: ThunkState::BlackHole,
                freevars: t.freevars,
                code: t.code,
                ty: t.ty,
            };
            ctx.heap.objs.insert(s, HeapEntry::Thunk(nt));
            proof {
                let e2 = HeapEntry::Thunk(with_state(thunk_at(m0, s), ThunkState::BlackHole));
                assert(nt.freevars@ == thunk_at(m0, s).freevars@);
                assert(HeapEntry::Thunk(nt) == e2);
                assert(ctx.hm() =~= m0.insert(s, e2));
                assert(m0.contains_key(s));
                assert(crate::heap::entry_wf(m0, s));
                assert(thunk_valid_ok(m0.insert(s, e2), s));
                lemma_wf_update_entry(m0, s, e2);
            }
        },
        _ => {
            proof {
                assert(false);
            }
        },
    }
}

/// Marks a mid-evaluation thunk as memoized.  Its operands must be
/// memoized, and its cell must already hold exactly the entry code applied
/// to their payloads.
fn mark_valid(ctx: &mut Ctx, s: u64)
    requires
        old(ctx).wf(),
        is_thunk_at(old(ctx).hm(), s),
        thunk_at(old(ctx).hm(), s).state == ThunkState::BlackHole,
        ({
            let t = thunk_at(old(ctx).hm(), s);
            match (t.code.entry, t.data) {
                (Some(e), Some(ds)) => {
                    &&& is_data_at(old(ctx).hm(), ds.uid)
                    &&& data_at(old(ctx).hm(), ds.uid).ty == t.ty
                    &&& operands_valid(old(ctx).hm(), e, t.ty)
                    &&& data_payload(old(ctx).hm(), ds.uid) == Some(
                        code_result(old(ctx).hm(), e),
                    )
                },
                _ => false,
            }
        }),
    ensures
        final(ctx).wf(),
        final(ctx).uid == old(ctx).uid,
        final(ctx).heap.stable == old(ctx).heap.stable,
        final(ctx).hm() == old(ctx).hm().insert(
            s,
            HeapEntry::Thunk(with_state(thunk_at(old(ctx).hm(), s), ThunkState::Valid)),
        ),
        heap_evolves(old(ctx).hm(), final(ctx).hm()),
{
    let ghost m0 = ctx.hm();
    match ctx.heap.objs.remove(&s) {
        Some(HeapEntry::Thunk(t)) => {
            let nt = Thunk {
                stable: t.stable,
                data: t.data,
                state: ThunkState::Valid,
                freevars: t.freevars,
                code: t.code,
                ty: t.ty,
            };
            ctx.heap.objs.insert(s, HeapEntry::Thunk(nt));
            proof {
                let t0 = thunk_at(m0, s);
                let e2 = HeapEntry::Thunk(with_state(t0, ThunkState::Valid));
                assert(nt.freevars@ == t0.freevars@);
                assert(HeapEntry::Thunk(nt) == e2);
                let m2 = m0.insert(s, e2);
                assert(ctx.hm() =~= m2);
                assert(m0.contains_key(s));
                assert(crate::heap::entry_wf(m0, s));
                let ec = t0.code.entry->Some_0;
                let ds = t0.data->Some_0;
                // A state flip moves no payload and unsettles no operand.
                assert forall|o: u64, oty: Ty| #[trigger]
                    operand_valid(m0, o, oty) implies operand_valid(m2, o, oty) && payload_val(
                    m2,
                    o,
                ) == payload_val(m0, o) by {
                    assert(o != s);
                    assert(m2[o] == m0[o]);
                    assert(crate::heap::entry_wf(m0, o));
                    let to = thunk_at(m0, o);
                    match to.data {
                        Some(dso) => {
                            if to.state == ThunkState::Valid {
                                assert(is_data_at(m0, dso.uid));
                                assert(dso.uid != s);
                                assert(m2[dso.uid] == m0[dso.uid]);
                            }
                        },
                        None => {},
                    }
                }
                assert(ds.uid != s);
                assert(m2[ds.uid] == m0[ds.uid]);
                assert(data_payload(m2, ds.uid) == data_payload(m0, ds.uid));
                match ec {
                    EntryCode::Constant(_) => {},
                    EntryCode::Add { x1, x2 } => {
                        assert(operand_valid(m0, x1.uid, Ty::Num));
                        assert(operand_valid(m0, x2.uid, Ty::Num));
                        assert(code_result(m2, ec) == code_result(m0, ec));
                    },
                    EntryCode::Switch { cond, x1, x2 } => {
                        assert(operand_valid(m0, cond.uid, Ty::Bool));
                        assert(operand_valid(m0, x1.uid, t0.ty));
                        assert(operand_valid(m0, x2.uid, t0.ty));
                        assert(code_result(m2, ec) == code_result(m0, ec));
                    },
                }
                assert(operands_valid(m2, ec, t0.ty));
                assert(thunk_valid_ok(m2, s));
                lemma_wf_update_entry(m0, s, e2);
            }
        },
        _ => {
            proof {
                assert(false);
            }
        },
    }
}

/// Writes a computed result into the backing cell of the thunk under `s`,
/// which must be mid-evaluation.  Fails if the cell does not resolve to a
/// data object of the thunk's own type.
fn write_own_payload(ctx: &mut Ctx, s: u64, ds: STag, v: Val, want: Ty) -> (r: Result<
    (),
    RtError,
>)
    requires
        old(ctx).wf(),
        is_thunk_at(old(ctx).hm(), s),
        thunk_at(old(ctx).hm(), s).state == ThunkState::BlackHole,
        thunk_at(old(ctx).hm(), s).data == Some(ds),
        thunk_at(old(ctx).hm(), s).ty == want,
        val_ty(v) == want,
    ensures
        final(ctx).wf(),
        final(ctx).uid == old(ctx).uid,
        final(ctx).heap.stable == old(ctx).heap.stable,
        heap_evolves(old(ctx).hm(), final(ctx).hm()),
        match r {
            Ok(_) => {
                &&& is_data_at(old(ctx).hm(), ds.uid)
                &&& data_at(old(ctx).hm(), ds.uid).ty == want
                &&& final(ctx).hm() == old(ctx).hm().insert(
                    ds.uid,
                    HeapEntry::Data(with_payload(data_at(old(ctx).hm(), ds.uid), v)),
                )
                &&& data_payload(final(ctx).hm(), ds.uid) == Some(v)
            },
            Err(RtError::ObjectNotFound) => !old(ctx).hm().contains_key(ds.uid)
                && final(ctx).hm() == old(ctx).hm(),
            Err(RtError::TypeMismatch) => old(ctx).hm().contains_key(ds.uid) && !(is_data_at(
                old(ctx).hm(),
                ds.uid,
            ) && data_at(old(ctx).hm(), ds.uid).ty == want) && final(ctx).hm() == old(ctx).hm(),
            Err(_) => false,
        },
{
    let ghost m0 = ctx.hm();
    proof {
        lemma_evolves_refl(m0);
    }
    match ctx.heap.objs.remove(&ds.uid) {
        None => {
            proof {
                assert(ctx.hm() =~= m0);
            }
            Err(RtError::ObjectNotFound)
        },
        Some(HeapEntry::Thunk(t)) => {
            ctx.heap.objs.insert(ds.uid, HeapEntry::Thunk(t));
            proof {
                assert(ctx.hm() =~= m0);
            }
            Err(RtError::TypeMismatch)
        },
        Some(HeapEntry::Data(d)) => {
            if d.ty == want {
                let nd = Data {
                    stable: d.stable,
                    ty: d.ty,
                    cell: crate::cell::DataCell {
                        curr_txn: d.cell.curr_txn,
                        l_consumers: d.cell.l_consumers,
                        d_consumers: d.cell.d_consumers,
                        l_producers: d.cell.l_producers,
                        d_producers: d.cell.d_producers,
                        payload: Some(v),
                    },
                    code: d.code,
                };
                ctx.heap.objs.insert(ds.uid, HeapEntry::Data(nd));
                proof {
                    let e2 = HeapEntry::Data(with_payload(data_at(m0, ds.uid), v));
                    assert(HeapEntry::Data(nd) == e2);
                    assert(ctx.hm() =~= m0.insert(ds.uid, e2));
                    assert(m0.contains_key(ds.uid));
                    assert(crate::heap::entry_wf(m0, ds.uid));
                    // Only the cell of the thunk under evaluation is written,
                    // and no memoized thunk shares that cell.
                    assert forall|k: u64| #[trigger]
                        is_thunk_at(m0, k) && thunk_at(m0, k).state == ThunkState::Valid implies
                        thunk_at(m0, k).data != Some(STag { uid: ds.uid }) by {
                        if k == s {
                        } else {
                            assert(is_thunk_at(m0, s));
                            assert(!(thunk_at(m0, k).data is Some && thunk_at(m0, k).data
                                == thunk_at(m0, s).data));
                            assert(ds == STag { uid: ds.uid });
                        }
                    }
                    assert(thunk_valid_ok(m0.insert(ds.uid, e2), ds.uid));
                    lemma_wf_update_entry(m0, ds.uid, e2);
                }
                Ok(())
            } else {
                ctx.heap.objs.insert(ds.uid, HeapEntry::Data(d));
                proof {
                    assert(ctx.hm() =~= m0);
                }
                Err(RtError::TypeMismatch)
            }
        },
    }
}

/// The data object `d` with its payload materialized to `v`.
pub open spec fn with_payload(d: Data, v: Val) -> Data {
    Data {
        cell: crate::cell::DataCell { payload: Some(v), ..d.cell },
        ..d
    }
}

// ---------------------------------------------------------------------------
// The central dispatcher.
// ---------------------------------------------------------------------------

/// The contract of one force: what the evaluation returns and leaves behind,
/// for the heap `m0` it started from and the heap `m1` it ended with.
pub open spec fn force_post(
    m0: Map<u64, HeapEntry>,
    m1: Map<u64, HeapEntry>,
    s: u64,
    want: Ty,
    fuel: u64,
    r: Result<(), RtError>,
) -> bool {
    &&& (!m0.contains_key(s) ==> r == Err::<(), RtError>(RtError::ObjectNotFound) && m1 == m0)
    &&& (m0.contains_key(s) && !thunk_res_ok(m0, s, want) ==> r == Err::<(), RtError>(
        RtError::TypeMismatch,
    ) && m1 == m0)
    &&& (thunk_res_ok(m0, s, want) ==> {
        let t = thunk_at(m0, s);
        &&& (t.state == ThunkState::Valid ==> r is Ok && m1 == m0)
        &&& (t.state == ThunkState::BlackHole ==> r == Err::<(), RtError>(
            RtError::CyclicEvaluation,
        ) && m1 == m0)
        &&& (t.state == ThunkState::Empty && fuel == 0 ==> r == Err::<(), RtError>(
            RtError::CyclicEvaluation,
        ) && m1 == m0)
        &&& (t.state == ThunkState::Empty && fuel > 0 && t.code.entry is None ==> r == Err::<
            (),
            RtError,
        >(RtError::MissingEntryCode) && m1 == m0)
        &&& (t.state == ThunkState::Empty && fuel > 0 && t.code.entry is Some && r is Err
            ==> is_thunk_at(m1, s) && thunk_at(m1, s).state == ThunkState::BlackHole)
        &&& (t.state == ThunkState::Empty && fuel > 0 && t.data is Some && crate::heap::self_cycle_code(
            t.code.entry,
            s,
            want,
        ) ==> r == Err::<(), RtError>(RtError::CyclicEvaluation))
    })
    &&& (r is Ok ==> thunk_res_ok(m0, s, want) && is_thunk_at(m1, s) && thunk_at(m1, s).state
        == ThunkState::Valid && no_new_black(m0, m1))
    &&& (settled(m0, s, want) ==> r is Ok)
    &&& (const_ready(m0, s, want) && fuel >= 1 ==> r is Ok)
    &&& (op_ready(m0, s, want) && fuel >= 2 ==> r is Ok)
}

/// An operand that was ready is still ready after a fresh entry is appended
/// under a tag it does not use.
pub proof fn lemma_ready_fresh_insert(
    m: Map<u64, HeapEntry>,
    k: u64,
    e: HeapEntry,
    o: u64,
    ty: Ty,
)
    requires
        operand_ready(m, o, ty),
        !m.contains_key(k),
    ensures
        operand_ready(m.insert(k, e), o, ty),
{
    let m2 = m.insert(k, e);
    assert(m.contains_key(o));
    assert(o != k);
    assert(m2[o] == m[o]);
    if const_ready(m, o, ty) {
        let ds = thunk_at(m, o).data->Some_0;
        assert(is_data_at(m, ds.uid));
        assert(ds.uid != k);
        assert(m2[ds.uid] == m[ds.uid]);
    }
}

/// A context that can force a ready thunk holds at least two identifiers:
/// the thunk and its distinct backing cell both carry issued identifiers, so
/// the identity counter is fuel enough for the walk the readiness describes.
pub proof fn lemma_ready_fuel(c: Ctx, s: u64, ty: Ty)
    requires
        c.wf(),
        op_ready(c.hm(), s, ty) || const_ready(c.hm(), s, ty),
    ensures
        c.uid >= 2,
{
    let m = c.hm();
    assert(m.contains_key(s));
    assert(crate::heap::entry_wf(m, s));
    let t = thunk_at(m, s);
    if t.state == ThunkState::Valid {
        assert(thunk_valid_ok(m, s));
    } else {
        assert(own_cell_ok(m, s, ty));
    }
    let ds = t.data->Some_0;
    assert(is_data_at(m, ds.uid));
    assert(m.contains_key(ds.uid));
    assert(ds.uid != s);
}

/// The idempotence law: forcing a reference twice is the same as forcing it
/// once.  A first force that succeeded left the thunk memoized, so a second
/// force under any transaction — the core memoizes globally, not per
/// transaction — succeeds too and changes nothing at all: no state moves,
/// no entry code runs, no payload is touched.
pub proof fn lemma_force_idempotent(
    m0: Map<u64, HeapEntry>,
    m1: Map<u64, HeapEntry>,
    m2: Map<u64, HeapEntry>,
    s: u64,
    want: Ty,
    fuel1: u64,
    fuel2: u64,
    r2: Result<(), RtError>,
)
    requires
        heap_evolves(m0, m1),
        force_post(m0, m1, s, want, fuel1, Ok(())),
        force_post(m1, m2, s, want, fuel2, r2),
    ensures
        r2 is Ok,
        m2 == m1,
{
    assert(thunk_res_ok(m0, s, want));
    assert(m0.contains_key(s));
    assert(entry_evolves(m0[s], m1[s]));
    assert(is_thunk_at(m1, s) && thunk_at(m1, s).state == ThunkState::Valid);
    assert(thunk_at(m1, s).ty == want);
    assert(settled(m1, s, want));
}

/// Resolves a stable identifier as a thunk of the expected payload type.
pub(crate) fn resolve_thunk(ctx: &Ctx, s: u64, want: Ty) -> (r: Result<
    (ThunkState, Option<EntryCode>, Option<STag>),
    RtError,
>)
    ensures
        match r {
            Ok(x) => thunk_res_ok(ctx.hm(), s, want) && x.0 == thunk_at(ctx.hm(), s).state && x.1
                == thunk_at(ctx.hm(), s).code.entry && x.2 == thunk_at(ctx.hm(), s).data,
            Err(RtError::ObjectNotFound) => !ctx.hm().contains_key(s),
            Err(RtError::TypeMismatch) => ctx.hm().contains_key(s) && !thunk_res_ok(
                ctx.hm(),
                s,
                want,
            ),
            Err(_) => false,
        },
{
    match ctx.heap.objs.get(&s) {
        None => Err(RtError::ObjectNotFound),
        Some(HeapEntry::Data(_)) => Err(RtError::TypeMismatch),
        Some(HeapEntry::Thunk(th)) => {
            if th.ty == want {
                Ok((th.state, th.code.entry, th.data))
            } else {
                Err(RtError::TypeMismatch)
            }
        },
    }
}

/// Forces the thunk under `o` and reads the payload it memoized.
pub(crate) fn force_and_read(ctx: &mut Ctx, o: u64, ty: Ty, t: Txn, fuel: u64) -> (r: Result<
    Val,
    RtError,
>)
    requires
        old(ctx).wf(),
    ensures
        eval_frame(*old(ctx), *final(ctx)),
        match r {
            Ok(_) => force_post(old(ctx).hm(), final(ctx).hm(), o, ty, fuel, Ok(())),
            Err(e) => force_post(old(ctx).hm(), final(ctx).hm(), o, ty, fuel, Err(e)),
        },
        r matches Ok(v) ==> {
            &&& operand_valid(final(ctx).hm(), o, ty)
            &&& thunk_payload(final(ctx).hm(), o) == Some(v)
            &&& val_ty(v) == ty
            &&& no_new_black(old(ctx).hm(), final(ctx).hm())
        },
        settled(old(ctx).hm(), o, ty) ==> r is Ok && final(ctx).hm() == old(ctx).hm(),
        const_ready(old(ctx).hm(), o, ty) && fuel >= 1 ==> r is Ok,
        op_ready(old(ctx).hm(), o, ty) && fuel >= 2 ==> r is Ok,
    decreases fuel, 2int,
{
    let ghost m0 = ctx.hm();
    match force_at(ctx, o, ty, t, fuel) {
        Err(e) => Err(e),
        Ok(()) => {
            let ghost m1 = ctx.hm();
            proof {
                assert(m1.contains_key(o));
                assert(crate::heap::entry_wf(m1, o));
                assert(thunk_valid_ok(m1, o));
            }
            match ctx.heap.objs.get(&o) {
                Some(HeapEntry::Thunk(th)) => {
                    match th.data {
                        Some(ds) => {
                            match ctx.heap.objs.get(&ds.uid) {
                                Some(HeapEntry::Data(d)) => {
                                    match d.cell.payload {
                                        Some(v) => {
                                            proof {
                                                assert(crate::heap::entry_wf(m1, ds.uid));
                                                assert(crate::cell::data_wf(data_at(m1, ds.uid)));
                                            }
                                            Ok(v)
                                        },
                                        None => {
                                            proof {
                                                assert(false);
                                            }
                                            Err(RtError::UninitializedPayload)
                                        },
                                    }
                                },
                                _ => {
                                    proof {
                                        assert(false);
                                    }
                                    Err(RtError::ObjectNotFound)
                                },
                            }
                        },
                        None => {
                            proof {
                                assert(false);
                            }
                            Err(RtError::ObjectNotFound)
                        },
                    }
                },
                _ => {
                    proof {
                        assert(false);
                    }
                    Err(RtError::ObjectNotFound)
                },
            }
        },
    }
}

/// Runs the entry code of the thunk under `s`, already marked a black
/// hole: forces each operand depth-first and returns the value to write
/// into the backing cell.
#[verifier::rlimit(100)]
#[verifier::spinoff_prover]
fn eval_entry(ctx: &mut Ctx, s: u64, want: Ty, entry: EntryCode, t: Txn, fuel: u64) -> (r: Result<
    Val,
    RtError,
>)
    requires
        old(ctx).wf(),
        fuel >= 1,
        is_thunk_at(old(ctx).hm(), s),
        thunk_at(old(ctx).hm(), s).state == ThunkState::BlackHole,
        thunk_at(old(ctx).hm(), s).ty == want,
    ensures
        eval_frame(*old(ctx), *final(ctx)),
        is_thunk_at(final(ctx).hm(), s),
        thunk_at(final(ctx).hm(), s).state == ThunkState::BlackHole,
        thunk_at(final(ctx).hm(), s).data == thunk_at(old(ctx).hm(), s).data,
        thunk_at(final(ctx).hm(), s).code == thunk_at(old(ctx).hm(), s).code,
        thunk_at(final(ctx).hm(), s).ty == want,
        r matches Ok(v) ==> {
            &&& val_ty(v) == want
            &&& no_new_black(old(ctx).hm(), final(ctx).hm())
            &&& match entry {
                EntryCode::Constant(cv) => v == cv,
                EntryCode::Add { x1, x2 } => {
                    &&& operand_valid(final(ctx).hm(), x1.uid, Ty::Num)
                    &&& operand_valid(final(ctx).hm(), x2.uid, Ty::Num)
                    &&& v == crate::value::add_vals(
                        payload_val(final(ctx).hm(), x1.uid),
                        payload_val(final(ctx).hm(), x2.uid),
                    )
                },
                EntryCode::Switch { cond, x1, x2 } => {
                    &&& operand_valid(final(ctx).hm(), cond.uid, Ty::Bool)
                    &&& operand_valid(final(ctx).hm(), x1.uid, want)
                    &&& operand_valid(final(ctx).hm(), x2.uid, want)
                    &&& v == if crate::value::bool_of(payload_val(final(ctx).hm(), cond.uid)) {
                        payload_val(final(ctx).hm(), x2.uid)
                    } else {
                        payload_val(final(ctx).hm(), x1.uid)
                    }
                },
            }
        },
        (match entry {
            EntryCode::Constant(cv) => val_ty(cv) == want,
            _ => false,
        }) ==> r is Ok && final(ctx).hm() == old(ctx).hm(),
        crate::heap::code_ready(old(ctx).hm(), entry, want) && fuel >= 2 ==> r is Ok,
        crate::heap::self_cycle_code(Some(entry), s, want) ==> r == Err::<Val, RtError>(
            RtError::CyclicEvaluation,
        ),
    decreases fuel, 0int,
{
    let ghost m1 = ctx.hm();
    proof {
        lemma_evolves_refl(m1);
    }
    match entry {
        EntryCode::Constant(cv) => {
            if cv.ty() != want {
                return Err(RtError::TypeMismatch);
            }
            Ok(cv)
        },
        EntryCode::Add { x1, x2 } => {
            if want != Ty::Num {
                return Err(RtError::TypeMismatch);
            }
            let a = match force_and_read(ctx, x1.uid, Ty::Num, t, fuel - 1) {
                Err(e) => {
                    return Err(e);
                },
                Ok(av) => av,
            };
            let ghost m2 = ctx.hm();
            proof {
                if crate::heap::code_ready(m1, entry, want) && fuel >= 2 {
                    lemma_ready_preserved(m1, m2, x2.uid, Ty::Num);
                }
            }
            let b = match force_and_read(ctx, x2.uid, Ty::Num, t, fuel - 1) {
                Err(e) => {
                    proof {
                        lemma_evolves_trans(m1, m2, ctx.hm());
                    }
                    return Err(e);
                },
                Ok(bv) => bv,
            };
            proof {
                lemma_evolves_trans(m1, m2, ctx.hm());
                // The first operand stays memoized, with its payload, while
                // the second is forced.
                assert(thunk_payload(ctx.hm(), x1.uid) == thunk_payload(m2, x1.uid));
            }
            Ok(a.add_to(&b))
        },
        EntryCode::Switch { cond, x1, x2 } => {
            let c = match force_and_read(ctx, cond.uid, Ty::Bool, t, fuel - 1) {
                Err(e) => {
                    return Err(e);
                },
                Ok(cv) => cv,
            };
            let ghost m2 = ctx.hm();
            proof {
                if crate::heap::code_ready(m1, entry, want) && fuel >= 2 {
                    lemma_ready_preserved(m1, m2, x1.uid, want);
                    lemma_ready_preserved(m1, m2, x2.uid, want);
                }
            }
            let a = match force_and_read(ctx, x1.uid, want, t, fuel - 1) {
                Err(e) => {
                    proof {
                        lemma_evolves_trans(m1, m2, ctx.hm());
                    }
                    return Err(e);
                },
                Ok(av) => av,
            };
            let ghost m3 = ctx.hm();
            proof {
                if crate::heap::code_ready(m1, entry, want) && fuel >= 2 {
                    lemma_ready_preserved(m2, m3, x2.uid, want);
                }
            }
            let b = match force_and_read(ctx, x2.uid, want, t, fuel - 1) {
                Err(e) => {
                    proof {
                        lemma_evolves_trans(m1, m2, m3);
                        lemma_evolves_trans(m1, m3, ctx.hm());
                    }
                    return Err(e);
                },
                Ok(bv) => bv,
            };
            proof {
                lemma_evolves_trans(m1, m2, m3);
                lemma_evolves_trans(m1, m3, ctx.hm());
                assert(thunk_payload(ctx.hm(), cond.uid) == thunk_payload(m3, cond.uid));
                assert(thunk_payload(ctx.hm(), x1.uid) == thunk_payload(m3, x1.uid));
            }
            match c {
                Val::Bool(false) => Ok(a),
                Val::Bool(true) => Ok(b),
                Val::Num(_) => {
                    proof {
                        assert(false);
                    }
                    Ok(a)
                },
            }
        },
    }
}

/// The central dispatcher: forces the thunk under `s`, expected to hold a
/// result of type `want`, on behalf of transaction `t`.
///
/// A memoized thunk returns at once; a thunk already mid-evaluation is a
/// cyclic dependency; otherwise the thunk becomes a black hole, its operands
/// are forced depth-first, the result is written into its backing cell, and
/// the thunk becomes valid.  Any failure after the black hole is set leaves
/// the black hole in place: a thunk that failed once is not silently
/// retried.  The fuel bounds the depth of the operand walk; the public entry
/// points pass the identity counter, which no dependency chain of distinct
/// thunks can exhaust.
#[verifier::rlimit(100)]
#[verifier::spinoff_prover]
pub(crate) fn force_at(ctx: &mut Ctx, s: u64, want: Ty, t: Txn, fuel: u64) -> (r: Result<
    (),
    RtError,
>)
    requires
        old(ctx).wf(),
    ensures
        eval_frame(*old(ctx), *final(ctx)),
        force_post(old(ctx).hm(), final(ctx).hm(), s, want, fuel, r),
    decreases fuel, 1int,
{
    let ghost m0 = ctx.hm();
    proof {
        lemma_evolves_refl(m0);
    }
    let (state, entry_opt, data_opt) = match resolve_thunk(ctx, s, want) {
        Err(e) => {
            return Err(e);
        },
        Ok(x) => x,
    };
    match state {
        ThunkState::Valid => {
            proof {
                assert(settled(m0, s, want));
            }
            return Ok(());
        },
        ThunkState::BlackHole => {
            return Err(RtError::CyclicEvaluation);
        },
        ThunkState::Empty => {},
    }
    if fuel == 0 {
        return Err(RtError::CyclicEvaluation);
    }
    let entry = match entry_opt {
        None => {
            return Err(RtError::MissingEntryCode);
        },
        Some(e) => e,
    };
    mark_black_hole(ctx, s);
    let ghost m1 = ctx.hm();
    proof {
        assert(is_thunk_at(m1, s) && thunk_at(m1, s).state == ThunkState::BlackHole);
        assert(thunk_at(m1, s).data == data_opt);
        assert(thunk_at(m1, s).ty == want);
        let bh = HeapEntry::Thunk(with_state(thunk_at(m0, s), ThunkState::BlackHole));
        if op_ready(m0, s, want) {
            assert(own_cell_ok(m0, s, want));
            assert(crate::heap::code_ready(m0, entry, want));
            match entry {
                EntryCode::Constant(_) => {},
                EntryCode::Add { x1, x2 } => {
                    assert(x1.uid != s);
                    assert(x2.uid != s);
                    lemma_ready_other_thunk(m0, s, bh, x1.uid, Ty::Num);
                    lemma_ready_other_thunk(m0, s, bh, x2.uid, Ty::Num);
                },
                EntryCode::Switch { cond, x1, x2 } => {
                    assert(cond.uid != s);
                    assert(x1.uid != s);
                    assert(x2.uid != s);
                    lemma_ready_other_thunk(m0, s, bh, cond.uid, Ty::Bool);
                    lemma_ready_other_thunk(m0, s, bh, x1.uid, want);
                    lemma_ready_other_thunk(m0, s, bh, x2.uid, want);
                },
            }
            assert(crate::heap::code_ready(m1, entry, want));
        }
        if const_ready(m0, s, want) {
            assert(match entry {
                EntryCode::Constant(cv) => val_ty(cv) == want,
                _ => false,
            });
        }
    }
    let ds = match data_opt {
        None => {
            proof {
                assert(!op_ready(m0, s, want));
                assert(!const_ready(m0, s, want));
            }
            return Err(RtError::ObjectNotFound);
        },
        Some(d) => d,
    };
    let v: Val = match eval_entry(ctx, s, want, entry, t, fuel) {
        Err(e) => {
            proof {
                assert(!const_ready(m0, s, want));
                if op_ready(m0, s, want) && fuel >= 2 {
                    assert(false);
                }
                lemma_evolves_trans(m0, m1, ctx.hm());
            }
            return Err(e);
        },
        Ok(vv) => vv,
    };
    let ghost m4 = ctx.hm();
    proof {
        assert(thunk_at(m4, s).data == Some(ds));
        assert(thunk_at(m4, s).code.entry == Some(entry));
        if op_ready(m0, s, want) || const_ready(m0, s, want) {
            assert(is_data_at(m0, ds.uid) && data_at(m0, ds.uid).ty == want);
            lemma_evolves_trans(m0, m1, m4);
            assert(is_data_at(m4, ds.uid) && data_at(m4, ds.uid).ty == want);
        }
    }
    match write_own_payload(ctx, s, ds, v, want) {
        Err(e) => {
            proof {
                assert(!const_ready(m0, s, want));
                if op_ready(m0, s, want) && fuel >= 2 {
                    assert(false);
                }
                assert(is_thunk_at(ctx.hm(), s) && thunk_at(ctx.hm(), s).state
                    == ThunkState::BlackHole);
                lemma_evolves_trans(m0, m1, m4);
                lemma_evolves_trans(m0, m4, ctx.hm());
            }
            return Err(e);
        },
        Ok(()) => {},
    }
    let ghost m5 = ctx.hm();
    proof {
        assert(is_thunk_at(m5, s) && thunk_at(m5, s).state == ThunkState::BlackHole);
        assert(data_payload(m5, ds.uid) == Some(v));
        assert(data_at(m5, ds.uid).ty == want);
        lemma_force_result_fixed(m4, m5, s, ds, want, entry, v);
    }
    mark_valid(ctx, s);
    proof {
        let m6 = ctx.hm();
        lemma_evolves_trans(m0, m1, m4);
        lemma_evolves_trans(m0, m4, m5);
        lemma_evolves_trans(m0, m5, m6);
        assert(thunk_at(m6, s).state == ThunkState::Valid);
        assert forall|k: u64|
            is_thunk_at(m0, k) && #[trigger] thunk_at(m6, k).state == ThunkState::BlackHole
            implies thunk_at(m0, k).state == ThunkState::BlackHole by {
            if k != s {
                assert(thunk_at(m6, k) == thunk_at(m5, k));
                assert(is_thunk_at(m1, k));
                assert(thunk_at(m5, k).state == thunk_at(m4, k).state);
                assert(thunk_at(m1, k).state == thunk_at(m0, k).state);
            }
        }
        assert(no_new_black(m0, m6));
    }
    Ok(())
}

/// After the operand walk and the write of the result, the cell under the
/// evaluated thunk holds exactly the entry code applied to the operand
/// payloads in the final heap.
proof fn lemma_force_result_fixed(
    m4: Map<u64, HeapEntry>,
    m5: Map<u64, HeapEntry>,
    s: u64,
    ds: STag,
    want: Ty,
    entry: EntryCode,
    v: Val,
)
    requires
        heap_wf(m5),
        is_thunk_at(m5, s),
        thunk_at(m5, s).state == ThunkState::BlackHole,
        thunk_at(m5, s).data == Some(ds),
        thunk_at(m5, s).ty == want,
        thunk_at(m5, s).code.entry == Some(entry),
        is_data_at(m5, ds.uid),
        data_at(m5, ds.uid).ty == want,
        data_payload(m5, ds.uid) == Some(v),
        m5 == m4.insert(ds.uid, HeapEntry::Data(with_payload(data_at(m4, ds.uid), v))),
        heap_wf(m4),
        is_thunk_at(m4, s),
        is_data_at(m4, ds.uid),
        data_at(m4, ds.uid).ty == want,
        match entry {
            EntryCode::Constant(cv) => v == cv,
            EntryCode::Add { x1, x2 } => {
                &&& operand_valid(m4, x1.uid, Ty::Num)
                &&& operand_valid(m4, x2.uid, Ty::Num)
                &&& v == crate::value::add_vals(payload_val(m4, x1.uid), payload_val(m4, x2.uid))
            },
            EntryCode::Switch { cond, x1, x2 } => {
                &&& operand_valid(m4, cond.uid, Ty::Bool)
                &&& operand_valid(m4, x1.uid, want)
                &&& operand_valid(m4, x2.uid, want)
                &&& v == if crate::value::bool_of(payload_val(m4, cond.uid)) {
                    payload_val(m4, x2.uid)
                } else {
                    payload_val(m4, x1.uid)
                }
            },
        },
        thunk_at(m4, s).state == ThunkState::BlackHole,
        thunk_at(m4, s).data == Some(ds),
    ensures
        operands_valid(m5, entry, want),
        data_payload(m5, ds.uid) == Some(code_result(m5, entry)),
{
    // Writing the cell of the thunk under evaluation moves no operand
    // payload: operands are distinct thunks with cells of their own.
    assert forall|o: u64, oty: Ty| #[trigger]
        operand_valid(m4, o, oty) implies operand_valid(m5, o, oty) && payload_val(m5, o)
        == payload_val(m4, o) by {
        assert(o != ds.uid) by {
            assert(is_thunk_at(m4, o));
            assert(is_data_at(m5, ds.uid));
            if o == ds.uid {
                assert(m5[o] == HeapEntry::Data(with_payload(data_at(m4, ds.uid), v)));
                assert(m4[o] is Thunk);
                assert(crate::heap::entry_wf(m4, ds.uid));
            }
        }
        assert(m5[o] == m4[o]);
        assert(crate::heap::entry_wf(m4, o));
        let to = thunk_at(m4, o);
        if to.state == ThunkState::Valid {
            match to.data {
                Some(dso) => {
                    assert(is_data_at(m4, dso.uid));
                    assert(dso.uid != ds.uid) by {
                        if dso.uid == ds.uid {
                            assert(o != s);
                            assert(producers_injective(m4));
                            assert(is_thunk_at(m4, o) && is_thunk_at(m4, s));
                            assert(!(thunk_at(m4, o).data is Some && thunk_at(m4, o).data
                                == thunk_at(m4, s).data));
                            assert(dso == STag { uid: dso.uid });
                            assert(ds == STag { uid: ds.uid });
                        }
                    }
                    assert(m5[dso.uid] == m4[dso.uid]);
                },
                None => {},
            }
        }
    }
    match entry {
        EntryCode::Constant(_) => {},
        EntryCode::Add { x1, x2 } => {
            assert(payload_val(m5, x1.uid) == payload_val(m4, x1.uid));
            assert(payload_val(m5, x2.uid) == payload_val(m4, x2.uid));
        },
        EntryCode::Switch { cond, x1, x2 } => {
            assert(payload_val(m5, cond.uid) == payload_val(m4, cond.uid));
            assert(payload_val(m5, x1.uid) == payload_val(m4, x1.uid));
            assert(payload_val(m5, x2.uid) == payload_val(m4, x2.uid));
        },
    }
}

} // verus!
