//! Operation builders: the client-facing constructors of thunks.
//!
//! Each builder follows one recipe — the pattern every future operation
//! follows: allocate a data cell whose allocator returns a placeholder,
//! record the operand references as the thunk's free variables (the only
//! place dependency edges are recorded), assemble the entry code, and move
//! data cell and thunk into the heap, handing back an external reference.
//! Operands are validated against the heap up front: a dangling or
//! wrongly-typed operand reference fails the builder and leaves the context
//! untouched.

use vstd::prelude::*;
use crate::cell::{Data, DataCell, DataCode};
use crate::error::RtError;
use crate::heap::{
    HeapEntry, const_ready, data_at, is_data_at, op_ready, operand_ready, own_cell_ok, thunk_at,
    thunk_res_ok,
};
use crate::ids::{STag, Tag};
use crate::runtime::{Ctx, lemma_ready_fresh_insert, resolve_thunk};
use crate::thunk::{EntryCode, Thunk, ThunkCode, ThunkRef, ThunkState, putable};
use crate::value::{Ty, Val, default_val, val_ty};

verus! {

/// The sink that a reverse-mode pass would accumulate gradients into
/// (extension point; the core defines no pass semantics).
pub struct Sink {}

/// The facts every freshly built operation thunk satisfies, before it is
/// moved into the heap: the context grew by exactly the thunk identity and
/// its cell, the cell sits in the heap under the thunk's data link, and the
/// thunk itself may be moved in.
pub open spec fn built_thunk_ok(c0: Ctx, c1: Ctx, th: Thunk, ty: Ty, alloc: Val) -> bool {
    &&& c1.wf()
    &&& c1.uid == c0.uid + 2
    &&& c1.heap.stable == c0.heap.stable
    &&& th.stable == (STag { uid: (c0.uid + 1) as u64 })
    &&& th.data == Some(STag { uid: (c0.uid + 2) as u64 })
    &&& th.state == ThunkState::Empty
    &&& th.ty == ty
    &&& c1.hm() == c0.hm().insert(
        (c0.uid + 2) as u64,
        HeapEntry::Data(
            Data {
                stable: STag { uid: (c0.uid + 2) as u64 },
                ty,
                cell: DataCell {
                    curr_txn: None,
                    l_consumers: 0,
                    d_consumers: 0,
                    l_producers: 1,
                    d_producers: 0,
                    payload: None,
                },
                code: DataCode { alloc: Some(alloc) },
            },
        ),
    )
    &&& putable(c1, th)
    &&& is_data_at(c1.hm(), (c0.uid + 2) as u64)
    &&& data_at(c1.hm(), (c0.uid + 2) as u64).ty == ty
}

/// Allocates the backing cell of a new operation thunk and mints the
/// thunk's stable tag: the shared first half of every builder.
fn build_parts(ctx: &mut Ctx, ty: Ty, alloc: Val) -> (r: (STag, STag))
    requires
        old(ctx).wf(),
        old(ctx).uid + 2 <= u64::MAX,
        val_ty(alloc) == ty,
    ensures
        final(ctx).wf(),
        final(ctx).uid == old(ctx).uid + 2,
        final(ctx).heap.stable == old(ctx).heap.stable,
        r.0 == (STag { uid: (old(ctx).uid + 1) as u64 }),
        r.1 == (STag { uid: (old(ctx).uid + 2) as u64 }),
        final(ctx).hm() == old(ctx).hm().insert(
            (old(ctx).uid + 2) as u64,
            HeapEntry::Data(
                Data {
                    stable: STag { uid: (old(ctx).uid + 2) as u64 },
                    ty,
                    cell: DataCell {
                        curr_txn: None,
                        l_consumers: 0,
                        d_consumers: 0,
                        l_producers: 1,
                        d_producers: 0,
                        payload: None,
                    },
                    code: DataCode { alloc: Some(alloc) },
                },
            ),
        ),
        !old(ctx).hm().contains_key((old(ctx).uid + 1) as u64),
        !old(ctx).hm().contains_key((old(ctx).uid + 2) as u64),
{
    proof {
        if ctx.hm().contains_key((ctx.uid + 1) as u64) {
            assert(false);
        }
        if ctx.hm().contains_key((ctx.uid + 2) as u64) {
            assert(false);
        }
    }
    let stable = STag::new(ctx);
    let mut data = Data::new(ctx, ty, DataCode { alloc: Some(alloc) });
    data.cell.l_producers = 1;
    let dataref = data._put_obj(ctx);
    (stable, dataref)
}

/// The freshly built thunk of a builder may be moved into the heap: its tag
/// is free and no thunk in the heap links its cell.
proof fn lemma_built_putable(c0: Ctx, c1: Ctx, th: Thunk, ty: Ty, alloc: Val)
    requires
        c0.wf(),
        c1.wf(),
        c0.uid + 2 <= u64::MAX,
        c1.uid == c0.uid + 2,
        c1.hm() == c0.hm().insert(
            (c0.uid + 2) as u64,
            HeapEntry::Data(
                Data {
                    stable: STag { uid: (c0.uid + 2) as u64 },
                    ty,
                    cell: DataCell {
                        curr_txn: None,
                        l_consumers: 0,
                        d_consumers: 0,
                        l_producers: 1,
                        d_producers: 0,
                        payload: None,
                    },
                    code: DataCode { alloc: Some(alloc) },
                },
            ),
        ),
        th.stable == (STag { uid: (c0.uid + 1) as u64 }),
        th.data == Some(STag { uid: (c0.uid + 2) as u64 }),
        th.state == ThunkState::Empty,
    ensures
        putable(c1, th),
        is_data_at(c1.hm(), (c0.uid + 2) as u64),
        data_at(c1.hm(), (c0.uid + 2) as u64).ty == ty,
{
    let s = th.stable.uid;
    let du = (c0.uid + 2) as u64;
    assert(!c0.hm().contains_key(s));
    assert(!c1.hm().contains_key(s));
    assert(crate::heap::entry_keyed(s, HeapEntry::Thunk(th)));
    assert forall|j: u64| #[trigger]
        crate::heap::is_thunk_at(c1.hm(), j) implies thunk_at(c1.hm(), j).data != Some(
        STag { uid: du },
    ) by {
        assert(j != du);
        assert(c1.hm()[j] == c0.hm()[j]);
        assert(crate::heap::is_thunk_at(c0.hm(), j));
        match thunk_at(c0.hm(), j).data {
            Some(ds) => {
                assert(ds.uid <= c0.uid);
            },
            None => {},
        }
    }
    assert(crate::heap::fresh_cell_link(c1.hm(), th));
    assert(is_data_at(c1.hm(), du));
}

/// The constant operation: a thunk with no free variables whose entry
/// writes a fixed value.  Its cell's allocator materializes the same value.
pub struct ConstantOp {}

impl ConstantOp {
    /// Builds the data cell and the thunk of a constant, leaving the thunk
    /// to be moved into the heap by the caller.
    pub fn build_thunk(ctx: &mut Ctx, value: Val) -> (th: Thunk)
        requires
            old(ctx).wf(),
            old(ctx).uid + 2 <= u64::MAX,
        ensures
            built_thunk_ok(*old(ctx), *final(ctx), th, val_ty(value), value),
            th.code == (ThunkCode { entry: Some(EntryCode::Constant(value)), adjoint: None }),
            th.freevars@ == Seq::<Tag>::empty(),
    {
        let ghost c0 = *ctx;
        let ty = value.ty();
        let (stable, dataref) = build_parts(ctx, ty, value);
        let th = Thunk {
            stable,
            data: Some(dataref),
            state: ThunkState::Empty,
            freevars: Vec::new(),
            code: ThunkCode { entry: Some(EntryCode::Constant(value)), adjoint: None },
            ty,
        };
        proof {
            lemma_built_putable(c0, *ctx, th, ty, value);
        }
        th
    }
}

/// A constant: a thunk whose forced value is `value`, under a fresh
/// reference.
pub fn constant_op(ctx: &mut Ctx, value: Val) -> (r: ThunkRef)
    requires
        old(ctx).wf(),
        old(ctx).uid + 3 <= u64::MAX,
    ensures
        final(ctx).wf(),
        final(ctx).uid == old(ctx).uid + 3,
        final(ctx).heap.stable == old(ctx).heap.stable,
        r.ty == val_ty(value),
        r.tag.stable == (STag { uid: (old(ctx).uid + 1) as u64 }),
        r.tag.retain == (crate::ids::RTag { uid: (old(ctx).uid + 3) as u64 }),
        forall|k: u64| #[trigger]
            old(ctx).hm().contains_key(k) ==> final(ctx).hm().contains_key(k) && final(ctx).hm()[k]
                == old(ctx).hm()[k],
        thunk_res_ok(final(ctx).hm(), r.tag.stable.uid, r.ty),
        thunk_at(final(ctx).hm(), r.tag.stable.uid).state == ThunkState::Empty,
        thunk_at(final(ctx).hm(), r.tag.stable.uid).code.entry == Some(
            EntryCode::Constant(value),
        ),
        thunk_at(final(ctx).hm(), r.tag.stable.uid).freevars@ == Seq::<Tag>::empty(),
        const_ready(final(ctx).hm(), r.tag.stable.uid, r.ty),
        op_ready(final(ctx).hm(), r.tag.stable.uid, r.ty),
{
    let ghost c0 = *ctx;
    let th = ConstantOp::build_thunk(ctx, value);
    let ghost c1 = *ctx;
    let ghost s = th.stable.uid;
    let ghost du = (c0.uid + 2) as u64;
    let r = th._put_obj(ctx);
    proof {
        assert(s != du);
        assert(ctx.hm()[du] == c1.hm()[du]);
        assert(is_data_at(ctx.hm(), du) && data_at(ctx.hm(), du).ty == val_ty(value));
        assert(own_cell_ok(ctx.hm(), s, val_ty(value)));
        assert(const_ready(ctx.hm(), s, val_ty(value)));
        assert forall|k: u64| #[trigger] c0.hm().contains_key(k) implies ctx.hm().contains_key(k)
            && ctx.hm()[k] == c0.hm()[k] by {
            assert(0 < k <= c0.uid);
            assert(c1.hm()[k] == c0.hm()[k]);
        }
    }
    r
}

/// Whether an operand reference resolves against `m` as a thunk of its own
/// declared type, and that type is `ty`.
pub open spec fn operand_ok(m: Map<u64, HeapEntry>, x: ThunkRef, ty: Ty) -> bool {
    thunk_res_ok(m, x.tag.stable.uid, x.ty) && x.ty == ty
}

/// The binary addition operation: a thunk over two numeric operands whose
/// entry writes their wrapping sum.
pub struct AddOp {}

impl AddOp {
    /// Validates the operands, then builds the data cell and the thunk of a
    /// sum, leaving the thunk to be moved into the heap by the caller.  A
    /// dangling operand is `ObjectNotFound`; an operand the heap lookup
    /// disagrees with, or one that is not numeric, is `TypeMismatch`; either
    /// failure leaves the context untouched.
    pub fn build_thunk(ctx: &mut Ctx, x1: ThunkRef, x2: ThunkRef) -> (r: Result<Thunk, RtError>)
        requires
            old(ctx).wf(),
            old(ctx).uid + 2 <= u64::MAX,
        ensures
            final(ctx).wf(),
            match r {
                Ok(th) => {
                    &&& operand_ok(old(ctx).hm(), x1, Ty::Num)
                    &&& operand_ok(old(ctx).hm(), x2, Ty::Num)
                    &&& built_thunk_ok(*old(ctx), *final(ctx), th, Ty::Num, default_val(Ty::Num))
                    &&& th.code == (ThunkCode {
                        entry: Some(
                            EntryCode::Add { x1: x1.tag.stable, x2: x2.tag.stable },
                        ),
                        adjoint: None,
                    })
                    &&& th.freevars@ == seq![x1.tag, x2.tag]
                },
                Err(RtError::ObjectNotFound) => *final(ctx) == *old(ctx) && (!old(ctx).hm().contains_key(x1.tag.stable.uid) || !old(ctx).hm().contains_key(
                    x2.tag.stable.uid,
                )),
                Err(RtError::TypeMismatch) => *final(ctx) == *old(ctx) && (!operand_ok(
                    old(ctx).hm(),
                    x1,
                    Ty::Num,
                ) || !operand_ok(old(ctx).hm(), x2, Ty::Num)),
                Err(_) => false,
            },
    {
        match resolve_thunk(ctx, x1.tag.stable.uid, x1.ty) {
            Err(e) => {
                return Err(e);
            },
            Ok(_) => {},
        }
        if x1.ty != Ty::Num {
            return Err(RtError::TypeMismatch);
        }
        match resolve_thunk(ctx, x2.tag.stable.uid, x2.ty) {
            Err(e) => {
                return Err(e);
            },
            Ok(_) => {},
        }
        if x2.ty != Ty::Num {
            return Err(RtError::TypeMismatch);
        }
        let ghost c0 = *ctx;
        let s1 = x1.tag.stable;
        let s2 = x2.tag.stable;
        let (stable, dataref) = build_parts(ctx, Ty::Num, Val::default_of(Ty::Num));
        let mut freevars: Vec<Tag> = Vec::new();
        freevars.push(x1.tag);
        freevars.push(x2.tag);
        let th = Thunk {
            stable,
            data: Some(dataref),
            state: ThunkState::Empty,
            freevars,
            code: ThunkCode { entry: Some(EntryCode::Add { x1: s1, x2: s2 }), adjoint: None },
            ty: Ty::Num,
        };
        proof {
            lemma_built_putable(c0, *ctx, th, Ty::Num, default_val(Ty::Num));
        }
        Ok(th)
    }
}

/// A sum: a thunk whose forced value is the wrapping sum of the two
/// operands' values, under a fresh reference.
pub fn add_op(ctx: &mut Ctx, x1: ThunkRef, x2: ThunkRef) -> (r: Result<ThunkRef, RtError>)
    requires
        old(ctx).wf(),
        old(ctx).uid + 3 <= u64::MAX,
    ensures
        final(ctx).wf(),
        final(ctx).heap.stable == old(ctx).heap.stable,
        match r {
            Ok(y) => {
                &&& final(ctx).uid == old(ctx).uid + 3
                &&& y.ty == Ty::Num
                &&& y.tag.stable == (STag { uid: (old(ctx).uid + 1) as u64 })
                &&& forall|k: u64| #[trigger]
                    old(ctx).hm().contains_key(k) ==> final(ctx).hm().contains_key(k) && final(ctx).hm()[k] == old(ctx).hm()[k]
                &&& thunk_res_ok(final(ctx).hm(), y.tag.stable.uid, Ty::Num)
                &&& thunk_at(final(ctx).hm(), y.tag.stable.uid).state == ThunkState::Empty
                &&& thunk_at(final(ctx).hm(), y.tag.stable.uid).code.entry == Some(
                    EntryCode::Add { x1: x1.tag.stable, x2: x2.tag.stable },
                )
                &&& thunk_at(final(ctx).hm(), y.tag.stable.uid).freevars@ == seq![
                    x1.tag,
                    x2.tag,
                ]
                &&& own_cell_ok(final(ctx).hm(), y.tag.stable.uid, Ty::Num)
                &&& (operand_ready(old(ctx).hm(), x1.tag.stable.uid, Ty::Num) && operand_ready(
                    old(ctx).hm(),
                    x2.tag.stable.uid,
                    Ty::Num,
                ) ==> op_ready(final(ctx).hm(), y.tag.stable.uid, Ty::Num))
            },
            Err(RtError::ObjectNotFound) => *final(ctx) == *old(ctx) && (!old(ctx).hm().contains_key(x1.tag.stable.uid) || !old(ctx).hm().contains_key(
                x2.tag.stable.uid,
            )),
            Err(RtError::TypeMismatch) => *final(ctx) == *old(ctx) && (!operand_ok(
                old(ctx).hm(),
                x1,
                Ty::Num,
            ) || !operand_ok(old(ctx).hm(), x2, Ty::Num)),
            Err(_) => false,
        },
{
    let ghost c0 = *ctx;
    let ghost s1u = x1.tag.stable.uid;
    let ghost s2u = x2.tag.stable.uid;
    let th = match AddOp::build_thunk(ctx, x1, x2) {
        Err(e) => {
            return Err(e);
        },
        Ok(th) => th,
    };
    let ghost c1 = *ctx;
    let ghost s = th.stable.uid;
    let ghost du = (c0.uid + 2) as u64;
    let ghost entry = th.code.entry->Some_0;
    let y = th._put_obj(ctx);
    proof {
        assert(s != du);
        assert(ctx.hm()[du] == c1.hm()[du]);
        assert(own_cell_ok(ctx.hm(), s, Ty::Num));
        assert forall|k: u64| #[trigger] c0.hm().contains_key(k) implies ctx.hm().contains_key(k)
            && ctx.hm()[k] == c0.hm()[k] by {
            assert(0 < k <= c0.uid);
            assert(c1.hm()[k] == c0.hm()[k]);
        }
        if operand_ready(c0.hm(), s1u, Ty::Num) && operand_ready(c0.hm(), s2u, Ty::Num) {
            lemma_ready_fresh_insert(c0.hm(), du, c1.hm()[du], s1u, Ty::Num);
            lemma_ready_fresh_insert(c1.hm(), s, ctx.hm()[s], s1u, Ty::Num);
            lemma_ready_fresh_insert(c0.hm(), du, c1.hm()[du], s2u, Ty::Num);
            lemma_ready_fresh_insert(c1.hm(), s, ctx.hm()[s], s2u, Ty::Num);
            assert(crate::heap::code_ready(ctx.hm(), entry, Ty::Num));
        }
    }
    Ok(y)
}

/// The conditional selection operation: a thunk over a boolean condition
/// and two same-typed operands, selecting the first on `false` and the
/// second on `true`.
pub struct SwitchOp {}

impl SwitchOp {
    /// Validates the operands, then builds the data cell and the thunk of a
    /// selection, leaving the thunk to be moved into the heap by the
    /// caller.  The condition must resolve as a boolean thunk and the two
    /// branches as thunks of one type; either failure leaves the context
    /// untouched.
    pub fn build_thunk(ctx: &mut Ctx, cond: ThunkRef, x1: ThunkRef, x2: ThunkRef) -> (r: Result<
        Thunk,
        RtError,
    >)
        requires
            old(ctx).wf(),
            old(ctx).uid + 2 <= u64::MAX,
        ensures
            final(ctx).wf(),
            match r {
                Ok(th) => {
                    &&& operand_ok(old(ctx).hm(), cond, Ty::Bool)
                    &&& operand_ok(old(ctx).hm(), x1, x1.ty)
                    &&& operand_ok(old(ctx).hm(), x2, x1.ty)
                    &&& built_thunk_ok(*old(ctx), *final(ctx), th, x1.ty, default_val(x1.ty))
                    &&& th.code == (ThunkCode {
                        entry: Some(
                            EntryCode::Switch {
                                cond: cond.tag.stable,
                                x1: x1.tag.stable,
                                x2: x2.tag.stable,
                            },
                        ),
                        adjoint: None,
                    })
                    &&& th.freevars@ == seq![cond.tag, x1.tag, x2.tag]
                },
                Err(RtError::ObjectNotFound) => *final(ctx) == *old(ctx) && (!old(ctx).hm().contains_key(cond.tag.stable.uid) || !old(ctx).hm().contains_key(
                    x1.tag.stable.uid,
                ) || !old(ctx).hm().contains_key(x2.tag.stable.uid)),
                Err(RtError::TypeMismatch) => *final(ctx) == *old(ctx) && (!operand_ok(
                    old(ctx).hm(),
                    cond,
                    Ty::Bool,
                ) || !operand_ok(old(ctx).hm(), x1, x1.ty) || !operand_ok(
                    old(ctx).hm(),
                    x2,
                    x1.ty,
                )),
                Err(_) => false,
            },
    {
        match resolve_thunk(ctx, cond.tag.stable.uid, cond.ty) {
            Err(e) => {
                return Err(e);
            },
            Ok(_) => {},
        }
        if cond.ty != Ty::Bool {
            return Err(RtError::TypeMismatch);
        }
        match resolve_thunk(ctx, x1.tag.stable.uid, x1.ty) {
            Err(e) => {
                return Err(e);
            },
            Ok(_) => {},
        }
        match resolve_thunk(ctx, x2.tag.stable.uid, x2.ty) {
            Err(e) => {
                return Err(e);
            },
            Ok(_) => {},
        }
        if x2.ty != x1.ty {
            return Err(RtError::TypeMismatch);
        }
        let ghost c0 = *ctx;
        let ty = x1.ty;
        let sc = cond.tag.stable;
        let s1 = x1.tag.stable;
        let s2 = x2.tag.stable;
        let (stable, dataref) = build_parts(ctx, ty, Val::default_of(ty));
        let mut freevars: Vec<Tag> = Vec::new();
        freevars.push(cond.tag);
        freevars.push(x1.tag);
        freevars.push(x2.tag);
        let th = Thunk {
            stable,
            data: Some(dataref),
            state: ThunkState::Empty,
            freevars,
            code: ThunkCode {
                entry: Some(EntryCode::Switch { cond: sc, x1: s1, x2: s2 }),
                adjoint: None,
            },
            ty,
        };
        proof {
            lemma_built_putable(c0, *ctx, th, ty, default_val(ty));
        }
        Ok(th)
    }
}

/// A selection: a thunk whose forced value is the first operand's value
/// when the condition holds `false` and the second's when it holds `true`,
/// under a fresh reference.
pub fn switch_op(ctx: &mut Ctx, cond: ThunkRef, x1: ThunkRef, x2: ThunkRef) -> (r: Result<
    ThunkRef,
    RtError,
>)
    requires
        old(ctx).wf(),
        old(ctx).uid + 3 <= u64::MAX,
    ensures
        final(ctx).wf(),
        final(ctx).heap.stable == old(ctx).heap.stable,
        match r {
            Ok(y) => {
                &&& final(ctx).uid == old(ctx).uid + 3
                &&& y.ty == x1.ty
                &&& y.tag.stable == (STag { uid: (old(ctx).uid + 1) as u64 })
                &&& forall|k: u64| #[trigger]
                    old(ctx).hm().contains_key(k) ==> final(ctx).hm().contains_key(k) && final(ctx).hm()[k] == old(ctx).hm()[k]
                &&& thunk_res_ok(final(ctx).hm(), y.tag.stable.uid, x1.ty)
                &&& thunk_at(final(ctx).hm(), y.tag.stable.uid).state == ThunkState::Empty
                &&& thunk_at(final(ctx).hm(), y.tag.stable.uid).code.entry == Some(
                    EntryCode::Switch {
                        cond: cond.tag.stable,
                        x1: x1.tag.stable,
                        x2: x2.tag.stable,
                    },
                )
                &&& thunk_at(final(ctx).hm(), y.tag.stable.uid).freevars@ == seq![
                    cond.tag,
                    x1.tag,
                    x2.tag,
                ]
                &&& own_cell_ok(final(ctx).hm(), y.tag.stable.uid, x1.ty)
                &&& (operand_ready(old(ctx).hm(), cond.tag.stable.uid, Ty::Bool)
                    && operand_ready(old(ctx).hm(), x1.tag.stable.uid, x1.ty) && operand_ready(
                    old(ctx).hm(),
                    x2.tag.stable.uid,
                    x1.ty,
                ) ==> op_ready(final(ctx).hm(), y.tag.stable.uid, x1.ty))
            },
            Err(RtError::ObjectNotFound) => *final(ctx) == *old(ctx) && (!old(ctx).hm().contains_key(cond.tag.stable.uid) || !old(ctx).hm().contains_key(
                x1.tag.stable.uid,
            ) || !old(ctx).hm().contains_key(x2.tag.stable.uid)),
            Err(RtError::TypeMismatch) => *final(ctx) == *old(ctx) && (!operand_ok(
                old(ctx).hm(),
                cond,
                Ty::Bool,
            ) || !operand_ok(old(ctx).hm(), x1, x1.ty) || !operand_ok(
                old(ctx).hm(),
                x2,
                x1.ty,
            )),
            Err(_) => false,
        },
{
    let ghost c0 = *ctx;
    let ghost scu = cond.tag.stable.uid;
    let ghost s1u = x1.tag.stable.uid;
    let ghost s2u = x2.tag.stable.uid;
    let ghost ty = x1.ty;
    let th = match SwitchOp::build_thunk(ctx, cond, x1, x2) {
        Err(e) => {
            return Err(e);
        },
        Ok(th) => th,
    };
    let ghost c1 = *ctx;
    let ghost s = th.stable.uid;
    let ghost du = (c0.uid + 2) as u64;
    let ghost entry = th.code.entry->Some_0;
    let y = th._put_obj(ctx);
    proof {
        assert(s != du);
        assert(ctx.hm()[du] == c1.hm()[du]);
        assert(own_cell_ok(ctx.hm(), s, ty));
        assert forall|k: u64| #[trigger] c0.hm().contains_key(k) implies ctx.hm().contains_key(k)
            && ctx.hm()[k] == c0.hm()[k] by {
            assert(0 < k <= c0.uid);
            assert(c1.hm()[k] == c0.hm()[k]);
        }
        if operand_ready(c0.hm(), scu, Ty::Bool) && operand_ready(c0.hm(), s1u, ty)
            && operand_ready(c0.hm(), s2u, ty) {
            lemma_ready_fresh_insert(c0.hm(), du, c1.hm()[du], scu, Ty::Bool);
            lemma_ready_fresh_insert(c1.hm(), s, ctx.hm()[s], scu, Ty::Bool);
            lemma_ready_fresh_insert(c0.hm(), du, c1.hm()[du], s1u, ty);
            lemma_ready_fresh_insert(c1.hm(), s, ctx.hm()[s], s1u, ty);
            lemma_ready_fresh_insert(c0.hm(), du, c1.hm()[du], s2u, ty);
            lemma_ready_fresh_insert(c1.hm(), s, ctx.hm()[s], s2u, ty);
            assert(crate::heap::code_ready(ctx.hm(), entry, ty));
        }
    }
    Ok(y)
}

} // verus!
