//! The heap: an owning arena from stable tags to heap objects.
//!
//! Exactly one root heap is active per evaluation context, with identifier
//! zero reserved for it.  Objects are appended, never replaced: inserting
//! twice under one stable tag is a programmer error, ruled out by contract.
//! The heap is heterogeneous — a closed sum of data cells and thunks — and
//! every typed lookup checks the stored object's kind and payload type.
//!
//! This module also defines the specification model of the arena: the
//! well-formedness invariant every runtime operation preserves, and the
//! evolution order describing what a single evaluation may do to the heap
//! (states only advance, materialized payloads never disappear, memoized
//! results never change).

use std::collections::HashMap;
use vstd::prelude::*;
use crate::cell::{Data, data_wf};
use crate::error::RtError;
use crate::ids::STag;
use crate::runtime::Ctx;
use crate::thunk::{EntryCode, Thunk, ThunkState};
use crate::value::{Ty, Val, add_vals, bool_of, val_ty};

verus! {

/// The kind of a heap object.
#[derive(Clone, Copy)]
pub enum HeapObjKind {
    Heap,
    Data,
    Thunk,
}

/// Everything that can live under a stable tag.
pub trait HeapObj {
    /// Which kind of heap object this is.
    fn _obj_kind(&self) -> HeapObjKind;
}

/// A heap entry: the closed sum of object kinds the arena stores.
pub enum HeapEntry {
    Data(Data),
    Thunk(Thunk),
}

/// A reference to a nested frame heap, chained to the heap above it for
/// unresolved lookups.  Frame heaps are a documented extension; the core
/// evaluates against the root heap alone.
pub struct FrameRef {
    pub stable: STag,
    pub up: STag,
}

/// The owning store from stable tags to heap objects.
pub struct Heap {
    pub stable: STag,
    pub objs: HashMap<u64, HeapEntry>,
}

impl Heap {
    /// A fresh, empty heap under a newly issued stable identity.
    pub fn new(ctx: &mut Ctx) -> (h: Heap)
        requires
            old(ctx).wf(),
            old(ctx).uid < u64::MAX,
        ensures
            final(ctx).wf(),
            final(ctx).uid == old(ctx).uid + 1,
            final(ctx).heap == old(ctx).heap,
            h.stable == (STag { uid: (old(ctx).uid + 1) as u64 }),
            h.objs@ == Map::<u64, HeapEntry>::empty(),
    {
        let stable = crate::ids::STag::new(ctx);
        Heap { stable, objs: HashMap::new() }
    }

    /// The canonical root heap, under the reserved identifier zero.
    pub fn new_root() -> (h: Heap)
        ensures
            h.stable == (STag { uid: 0 }),
            h.objs@ == Map::<u64, HeapEntry>::empty(),
    {
        Heap { stable: STag { uid: 0 }, objs: HashMap::new() }
    }

    /// Appends an object under a stable tag.  Objects are appended, never
    /// replaced: calling this twice for one stable tag is a programmer
    /// error, so the tag must not be present yet.
    pub fn insert(&mut self, stable: STag, obj: HeapEntry)
        requires
            !old(self).objs@.contains_key(stable.uid),
        ensures
            final(self).stable == old(self).stable,
            final(self).objs@ == old(self).objs@.insert(stable.uid, obj),
    {
        self.objs.insert(stable.uid, obj);
    }

    /// The object under a stable tag, or `ObjectNotFound`.  Payload types
    /// are checked by the typed reference resolvers, not here.
    pub fn lookup(&self, stable: STag) -> (r: Result<&HeapEntry, RtError>)
        ensures
            match r {
                Ok(e) => self.objs@.contains_key(stable.uid) && *e == self.objs@[stable.uid],
                Err(e) => e == RtError::ObjectNotFound && !self.objs@.contains_key(stable.uid),
            },
    {
        match self.objs.get(&stable.uid) {
            Some(e) => Ok(e),
            None => Err(RtError::ObjectNotFound),
        }
    }
}

impl HeapObj for Heap {
    fn _obj_kind(&self) -> HeapObjKind {
        HeapObjKind::Heap
    }
}

impl HeapObj for Data {
    fn _obj_kind(&self) -> HeapObjKind {
        HeapObjKind::Data
    }
}

impl HeapObj for Thunk {
    fn _obj_kind(&self) -> HeapObjKind {
        HeapObjKind::Thunk
    }
}

// ---------------------------------------------------------------------------
// The specification model of the arena.
// ---------------------------------------------------------------------------

/// Whether `s` names a thunk in `m`.
pub open spec fn is_thunk_at(m: Map<u64, HeapEntry>, s: u64) -> bool {
    m.contains_key(s) && m[s] is Thunk
}

/// The thunk under `s`.
pub open spec fn thunk_at(m: Map<u64, HeapEntry>, s: u64) -> Thunk
    recommends
        is_thunk_at(m, s),
{
    match m[s] {
        HeapEntry::Thunk(t) => t,
        HeapEntry::Data(_) => arbitrary(),
    }
}

/// Whether `s` names a data object in `m`.
pub open spec fn is_data_at(m: Map<u64, HeapEntry>, s: u64) -> bool {
    m.contains_key(s) && m[s] is Data
}

/// The data object under `s`.
pub open spec fn data_at(m: Map<u64, HeapEntry>, s: u64) -> Data
    recommends
        is_data_at(m, s),
{
    match m[s] {
        HeapEntry::Data(d) => d,
        HeapEntry::Thunk(_) => arbitrary(),
    }
}

/// The payload of the data object under `ds`, or `None` where no such
/// object or no payload exists.
pub open spec fn data_payload(m: Map<u64, HeapEntry>, ds: u64) -> Option<Val> {
    if is_data_at(m, ds) {
        data_at(m, ds).cell.payload
    } else {
        None
    }
}

/// The payload backing the thunk under `s`, reached through its data link,
/// or `None` where the chain does not resolve.
pub open spec fn thunk_payload(m: Map<u64, HeapEntry>, s: u64) -> Option<Val> {
    if is_thunk_at(m, s) {
        match thunk_at(m, s).data {
            Some(ds) => data_payload(m, ds.uid),
            None => None,
        }
    } else {
        None
    }
}

/// The payload value backing the thunk under `s`; zero where unset.  Only
/// meaningful where the thunk is valid, which guarantees a payload.
pub open spec fn payload_val(m: Map<u64, HeapEntry>, s: u64) -> Val {
    match thunk_payload(m, s) {
        Some(v) => v,
        None => Val::Num(0),
    }
}

/// Whether `s` resolves as a thunk of payload type `ty`: the typed lookup
/// that every reference makes.
pub open spec fn thunk_res_ok(m: Map<u64, HeapEntry>, s: u64, ty: Ty) -> bool {
    is_thunk_at(m, s) && thunk_at(m, s).ty == ty
}

/// Whether the thunk under `s` is a memoized result of type `ty`.
pub open spec fn operand_valid(m: Map<u64, HeapEntry>, s: u64, ty: Ty) -> bool {
    thunk_res_ok(m, s, ty) && thunk_at(m, s).state == ThunkState::Valid
}

/// Whether every operand that `e` reads is a memoized result of the type
/// the operation needs; `ty` is the result type of the thunk holding `e`.
pub open spec fn operands_valid(m: Map<u64, HeapEntry>, e: EntryCode, ty: Ty) -> bool {
    match e {
        EntryCode::Constant(_) => true,
        EntryCode::Add { x1, x2 } => operand_valid(m, x1.uid, Ty::Num) && operand_valid(
            m,
            x2.uid,
            Ty::Num,
        ),
        EntryCode::Switch { cond, x1, x2 } => operand_valid(m, cond.uid, Ty::Bool)
            && operand_valid(m, x1.uid, ty) && operand_valid(m, x2.uid, ty),
    }
}

/// What the entry code computes over the operand payloads currently in the
/// heap.  A switch selects its first operand on `false` and its second on
/// `true`.
pub open spec fn code_result(m: Map<u64, HeapEntry>, e: EntryCode) -> Val {
    match e {
        EntryCode::Constant(v) => v,
        EntryCode::Add { x1, x2 } => add_vals(payload_val(m, x1.uid), payload_val(m, x2.uid)),
        EntryCode::Switch { cond, x1, x2 } => if bool_of(payload_val(m, cond.uid)) {
            payload_val(m, x2.uid)
        } else {
            payload_val(m, x1.uid)
        },
    }
}

/// The memoization guarantee of one valid thunk: its operands are valid,
/// its cell is materialized, and the cell holds exactly the entry code
/// applied to the operand payloads.
pub open spec fn thunk_valid_ok(m: Map<u64, HeapEntry>, s: u64) -> bool {
    is_thunk_at(m, s) && thunk_at(m, s).state == ThunkState::Valid ==> {
        let t = thunk_at(m, s);
        match (t.code.entry, t.data) {
            (Some(e), Some(ds)) => {
                &&& is_data_at(m, ds.uid)
                &&& data_at(m, ds.uid).ty == t.ty
                &&& operands_valid(m, e, t.ty)
                &&& data_payload(m, ds.uid) == Some(code_result(m, e))
            },
            _ => false,
        }
    }
}

/// Whether the entry under `k` is stored under its own stable tag.
pub open spec fn entry_keyed(k: u64, e: HeapEntry) -> bool {
    match e {
        HeapEntry::Data(d) => d.stable.uid == k,
        HeapEntry::Thunk(t) => t.stable.uid == k,
    }
}

/// Every cell has at most one producer: two distinct thunks never share a
/// backing data cell.
pub open spec fn producers_injective(m: Map<u64, HeapEntry>) -> bool {
    forall|k1: u64, k2: u64|
        #![trigger is_thunk_at(m, k1), is_thunk_at(m, k2)]
        is_thunk_at(m, k1) && is_thunk_at(m, k2) && k1 != k2 ==> !(thunk_at(m, k1).data is Some
            && thunk_at(m, k1).data == thunk_at(m, k2).data)
}

/// Well-formedness of one heap entry within the arena.
pub open spec fn entry_wf(m: Map<u64, HeapEntry>, k: u64) -> bool {
    &&& entry_keyed(k, m[k])
    &&& match m[k] {
        HeapEntry::Data(d) => data_wf(d),
        HeapEntry::Thunk(_) => true,
    }
    &&& thunk_valid_ok(m, k)
}

/// Well-formedness of the whole arena: every entry sits under its own tag,
/// every cell is typed, every memoized result is exactly its operation
/// applied to its operands, and no two thunks share a cell.
pub open spec fn heap_wf(m: Map<u64, HeapEntry>) -> bool {
    &&& forall|k: u64| #[trigger] m.contains_key(k) ==> entry_wf(m, k)
    &&& producers_injective(m)
}

/// The memoization law: in a well-formed heap, every thunk that reached the
/// valid state stands over valid operands, and the payload behind it is
/// exactly its entry code applied to the payloads of those operands.  Since
/// nothing ever moves a thunk out of the valid state or rewrites the cell
/// behind one, the value observed by any later read is fixed.
pub proof fn lemma_memoized_result(m: Map<u64, HeapEntry>, s: u64)
    requires
        heap_wf(m),
        is_thunk_at(m, s),
        thunk_at(m, s).state == ThunkState::Valid,
    ensures
        thunk_at(m, s).code.entry is Some,
        operands_valid(m, thunk_at(m, s).code.entry->Some_0, thunk_at(m, s).ty),
        thunk_payload(m, s) == Some(code_result(m, thunk_at(m, s).code.entry->Some_0)),
{
    assert(entry_wf(m, s));
    assert(thunk_valid_ok(m, s));
}

// ---------------------------------------------------------------------------
// Readiness: when an evaluation is owed success.
// ---------------------------------------------------------------------------

/// Whether the thunk under `s` is already a memoized result of type `ty`.
pub open spec fn settled(m: Map<u64, HeapEntry>, s: u64, ty: Ty) -> bool {
    thunk_res_ok(m, s, ty) && thunk_at(m, s).state == ThunkState::Valid
}

/// Whether the thunk under `s` links to a data cell of its own type.
pub open spec fn own_cell_ok(m: Map<u64, HeapEntry>, s: u64, ty: Ty) -> bool {
    match thunk_at(m, s).data {
        Some(ds) => is_data_at(m, ds.uid) && data_at(m, ds.uid).ty == ty,
        None => false,
    }
}

/// Whether the thunk under `s` is an unevaluated constant of type `ty`
/// whose cell resolves: forcing it must succeed outright.
pub open spec fn const_ready(m: Map<u64, HeapEntry>, s: u64, ty: Ty) -> bool {
    &&& thunk_res_ok(m, s, ty)
    &&& thunk_at(m, s).state == ThunkState::Empty
    &&& own_cell_ok(m, s, ty)
    &&& match thunk_at(m, s).code.entry {
        Some(EntryCode::Constant(v)) => val_ty(v) == ty,
        _ => false,
    }
}

/// Whether an operand read is owed success: the operand is memoized
/// already, or is a constant that will evaluate outright.
pub open spec fn operand_ready(m: Map<u64, HeapEntry>, s: u64, ty: Ty) -> bool {
    settled(m, s, ty) || const_ready(m, s, ty)
}

/// Whether running the entry code `e` for a result of type `ty` is owed
/// success: a constant of the right type, or an operation whose operands
/// are all ready.
pub open spec fn code_ready(m: Map<u64, HeapEntry>, e: EntryCode, ty: Ty) -> bool {
    match e {
        EntryCode::Constant(v) => val_ty(v) == ty,
        EntryCode::Add { x1, x2 } => ty == Ty::Num && operand_ready(m, x1.uid, Ty::Num)
            && operand_ready(m, x2.uid, Ty::Num),
        EntryCode::Switch { cond, x1, x2 } => operand_ready(m, cond.uid, Ty::Bool)
            && operand_ready(m, x1.uid, ty) && operand_ready(m, x2.uid, ty),
    }
}

/// Whether the entry code forces its own thunk first: the first operand the
/// dispatcher resolves is the thunk under `s` itself, asked for as the type
/// it has.  Forcing such a thunk finds its own black hole: the direct case
/// of cyclic forcing.
pub open spec fn self_cycle_code(e: Option<EntryCode>, s: u64, want: Ty) -> bool {
    match e {
        Some(EntryCode::Add { x1, x2 }) => want == Ty::Num && x1.uid == s,
        Some(EntryCode::Switch { cond, x1, x2 }) => want == Ty::Bool && cond.uid == s,
        _ => false,
    }
}

/// Whether forcing the thunk under `s` is owed success: it is memoized
/// already, or it is unevaluated with a resolving cell and every operand
/// ready.
pub open spec fn op_ready(m: Map<u64, HeapEntry>, s: u64, ty: Ty) -> bool {
    thunk_res_ok(m, s, ty) && (thunk_at(m, s).state == ThunkState::Valid || {
        &&& thunk_at(m, s).state == ThunkState::Empty
        &&& own_cell_ok(m, s, ty)
        &&& match thunk_at(m, s).code.entry {
            None => false,
            Some(e) => code_ready(m, e, ty),
        }
    })
}

// ---------------------------------------------------------------------------
// Evolution: what one evaluation may do to the heap.
// ---------------------------------------------------------------------------

/// The state machine's order: `Empty → BlackHole → Valid`, no way back.
pub open spec fn state_le(a: ThunkState, b: ThunkState) -> bool {
    match (a, b) {
        (ThunkState::Empty, _) => true,
        (ThunkState::BlackHole, ThunkState::BlackHole) => true,
        (ThunkState::BlackHole, ThunkState::Valid) => true,
        (ThunkState::Valid, ThunkState::Valid) => true,
        _ => false,
    }
}

/// How one heap entry may change under evaluation: structure, code and
/// identity are fixed; a thunk's state only advances; a cell's payload,
/// once set, never becomes unset.
pub open spec fn entry_evolves(e1: HeapEntry, e2: HeapEntry) -> bool {
    match (e1, e2) {
        (HeapEntry::Data(d1), HeapEntry::Data(d2)) => {
            &&& d2.stable == d1.stable
            &&& d2.ty == d1.ty
            &&& d2.code == d1.code
            &&& d2.cell.curr_txn == d1.cell.curr_txn
            &&& d2.cell.l_consumers == d1.cell.l_consumers
            &&& d2.cell.d_consumers == d1.cell.d_consumers
            &&& d2.cell.l_producers == d1.cell.l_producers
            &&& d2.cell.d_producers == d1.cell.d_producers
            &&& (d1.cell.payload is Some ==> d2.cell.payload is Some)
        },
        (HeapEntry::Thunk(t1), HeapEntry::Thunk(t2)) => {
            &&& t2.stable == t1.stable
            &&& t2.data == t1.data
            &&& t2.freevars@ == t1.freevars@
            &&& t2.code == t1.code
            &&& t2.ty == t1.ty
            &&& state_le(t1.state, t2.state)
        },
        _ => false,
    }
}

/// How the heap may change under evaluation: no entry appears or
/// disappears, each entry evolves in place, and the payload backing any
/// already-memoized thunk stays exactly what it was.
pub open spec fn heap_evolves(m1: Map<u64, HeapEntry>, m2: Map<u64, HeapEntry>) -> bool {
    &&& m2.dom() == m1.dom()
    &&& forall|k: u64| #[trigger] m1.contains_key(k) ==> entry_evolves(m1[k], m2[k])
    &&& forall|k: u64|
        is_thunk_at(m1, k) && #[trigger] thunk_at(m1, k).state == ThunkState::Valid
            ==> thunk_payload(m2, k) == thunk_payload(m1, k)
}

/// Whether evaluation left no new black hole behind: every thunk in
/// progress afterwards was already in progress before.  This holds of every
/// evaluation that returns success.
pub open spec fn no_new_black(m1: Map<u64, HeapEntry>, m2: Map<u64, HeapEntry>) -> bool {
    forall|k: u64|
        #![trigger thunk_at(m2, k).state]
        is_thunk_at(m1, k) && thunk_at(m2, k).state == ThunkState::BlackHole ==> thunk_at(
            m1,
            k,
        ).state == ThunkState::BlackHole
}

/// Whether every thunk in progress stays in progress: an evaluation never
/// completes a thunk that was already in progress when it started (that
/// would be the cyclic case, which fails instead).
pub open spec fn black_preserved(m1: Map<u64, HeapEntry>, m2: Map<u64, HeapEntry>) -> bool {
    forall|k: u64|
        #![trigger thunk_at(m1, k).state]
        is_thunk_at(m1, k) && thunk_at(m1, k).state == ThunkState::BlackHole ==> thunk_at(
            m2,
            k,
        ).state == ThunkState::BlackHole
}

/// Whether a thunk's backing cell is linked by no thunk already in the
/// arena: the freshness a new thunk's cell must have.
pub open spec fn fresh_cell_link(m: Map<u64, HeapEntry>, t: Thunk) -> bool {
    match t.data {
        Some(ds) => forall|j: u64| #[trigger]
            is_thunk_at(m, j) ==> thunk_at(m, j).data != Some(ds),
        None => true,
    }
}

/// Whether an entry may be appended to the arena under `s` without
/// breaking well-formedness: the tag is free, the entry sits under its own
/// tag, a data object is internally consistent, and a thunk arrives
/// unevaluated with a cell of its own.
pub open spec fn insertable(m: Map<u64, HeapEntry>, s: u64, e: HeapEntry) -> bool {
    &&& !m.contains_key(s)
    &&& entry_keyed(s, e)
    &&& match e {
        HeapEntry::Data(d) => data_wf(d),
        HeapEntry::Thunk(t) => t.state == ThunkState::Empty && fresh_cell_link(m, t),
    }
}

} // verus!
