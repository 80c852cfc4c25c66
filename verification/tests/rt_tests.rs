use hebb::cell::{Data, DataCode, LDataRef};
use hebb::config::{DefaultConfig, OptimizeHint, thread_ctx};
use hebb::error::RtError;
use hebb::heap::{Heap, HeapEntry};
use hebb::ids::{STag, Tag, txn};
use hebb::ops::{add_op, constant_op, switch_op};
use hebb::runtime::Ctx;
use hebb::thunk::{EntryCode, Thunk, ThunkCode, ThunkRef, ThunkState};
use hebb::value::{Ty, Val};

#[test]
fn test_rt1_add() {
    let mut ctx = Ctx::new();
    let x1 = constant_op(&mut ctx, Val::Num(1));
    let x2 = constant_op(&mut ctx, Val::Num(2));
    let x1b = x1.clone_ref(&mut ctx);
    let y = add_op(&mut ctx, x1b, x2).unwrap();
    let t = txn(&mut ctx);
    assert_eq!(x1.force_eval(&mut ctx, t), Ok(()));
    assert_eq!(y.force_eval(&mut ctx, t), Ok(()));
    let ry = y._get_obj(&ctx).unwrap();
    assert_eq!(ry.get(&mut ctx, t), Ok(Val::Num(3)));
}

#[test]
fn test_rt1_switch() {
    let mut ctx = Ctx::new();
    let c = constant_op(&mut ctx, Val::Bool(true));
    let x1 = constant_op(&mut ctx, Val::Num(1));
    let x2 = constant_op(&mut ctx, Val::Num(2));
    let cb = c.clone_ref(&mut ctx);
    let x1b = x1.clone_ref(&mut ctx);
    let y = switch_op(&mut ctx, cb, x1b, x2).unwrap();
    let t = txn(&mut ctx);
    assert_eq!(x1.force_eval(&mut ctx, t), Ok(()));
    assert_eq!(y.force_eval(&mut ctx, t), Ok(()));
    let ry = y._get_obj(&ctx).unwrap();
    assert_eq!(ry.get(&mut ctx, t), Ok(Val::Num(2)));
}

#[test]
fn switch_selects_first_operand_on_false() {
    let mut ctx = Ctx::new();
    let c = constant_op(&mut ctx, Val::Bool(false));
    let x1 = constant_op(&mut ctx, Val::Num(1));
    let x2 = constant_op(&mut ctx, Val::Num(2));
    let y = switch_op(&mut ctx, c, x1, x2).unwrap();
    let t = txn(&mut ctx);
    assert_eq!(y.force_eval(&mut ctx, t), Ok(()));
    let ry = y._get_obj(&ctx).unwrap();
    assert_eq!(ry.get(&mut ctx, t), Ok(Val::Num(1)));
}

#[test]
fn force_is_idempotent() {
    let mut ctx = Ctx::new();
    let x1 = constant_op(&mut ctx, Val::Num(20));
    let x2 = constant_op(&mut ctx, Val::Num(22));
    let y = add_op(&mut ctx, x1, x2).unwrap();
    let t = txn(&mut ctx);
    assert_eq!(y.force_eval(&mut ctx, t), Ok(()));
    let ry = y._get_obj(&ctx).unwrap();
    let first = ry.get(&mut ctx, t);
    assert_eq!(first, Ok(Val::Num(42)));
    // A second force of a memoized thunk succeeds and recomputes nothing.
    assert_eq!(y.force_eval(&mut ctx, t), Ok(()));
    let t2 = txn(&mut ctx);
    assert_eq!(y.force_eval(&mut ctx, t2), Ok(()));
    assert_eq!(ry.get(&mut ctx, t2), first);
}

#[test]
fn deep_graph_evaluates_transitively() {
    let mut ctx = Ctx::new();
    let x1 = constant_op(&mut ctx, Val::Num(1));
    let x2 = constant_op(&mut ctx, Val::Num(2));
    let x3 = constant_op(&mut ctx, Val::Num(3));
    let inner = add_op(&mut ctx, x1, x2).unwrap();
    let y = add_op(&mut ctx, inner, x3).unwrap();
    let t = txn(&mut ctx);
    // Only the root is forced; dependencies are forced transitively.
    assert_eq!(y.force_eval(&mut ctx, t), Ok(()));
    let ry = y._get_obj(&ctx).unwrap();
    assert_eq!(ry.get(&mut ctx, t), Ok(Val::Num(6)));
}

#[test]
fn cycle_is_detected() {
    let mut ctx = Ctx::new();
    let d = Data::new(&mut ctx, Ty::Num, DataCode { alloc: Some(Val::Num(0)) });
    let ds = d._put_obj(&mut ctx);
    let s = STag::new(&mut ctx);
    let th = Thunk {
        stable: s,
        data: Some(ds),
        state: ThunkState::Empty,
        freevars: Vec::new(),
        code: ThunkCode { entry: Some(EntryCode::Add { x1: s, x2: s }), adjoint: None },
        ty: Ty::Num,
    };
    let r = th._put_obj(&mut ctx);
    let t = txn(&mut ctx);
    // The thunk forces itself through its own operand: the inner force finds
    // the black hole.
    assert_eq!(r.force_eval(&mut ctx, t), Err(RtError::CyclicEvaluation));
    // The failed thunk deliberately stays a black hole: no silent retry.
    assert_eq!(r.force_eval(&mut ctx, t), Err(RtError::CyclicEvaluation));
}

#[test]
fn transitive_cycle_is_detected() {
    let mut ctx = Ctx::new();
    let da = Data::new(&mut ctx, Ty::Num, DataCode { alloc: Some(Val::Num(0)) });
    let dsa = da._put_obj(&mut ctx);
    let db = Data::new(&mut ctx, Ty::Num, DataCode { alloc: Some(Val::Num(0)) });
    let dsb = db._put_obj(&mut ctx);
    let sa = STag::new(&mut ctx);
    let sb = STag::new(&mut ctx);
    let tha = Thunk {
        stable: sa,
        data: Some(dsa),
        state: ThunkState::Empty,
        freevars: Vec::new(),
        code: ThunkCode { entry: Some(EntryCode::Add { x1: sb, x2: sb }), adjoint: None },
        ty: Ty::Num,
    };
    let thb = Thunk {
        stable: sb,
        data: Some(dsb),
        state: ThunkState::Empty,
        freevars: Vec::new(),
        code: ThunkCode { entry: Some(EntryCode::Add { x1: sa, x2: sa }), adjoint: None },
        ty: Ty::Num,
    };
    let ra = tha._put_obj(&mut ctx);
    let _rb = thb._put_obj(&mut ctx);
    let t = txn(&mut ctx);
    // Forcing `a` forces `b`, which forces `a` again: the inner force finds
    // the black hole, never a stack overflow or a wrong answer.
    assert_eq!(ra.force_eval(&mut ctx, t), Err(RtError::CyclicEvaluation));
}

#[test]
fn reused_tag_of_wrong_type_is_a_mismatch() {
    let mut ctx = Ctx::new();
    let c = constant_op(&mut ctx, Val::Bool(true));
    let forged = ThunkRef::_from_tag(c.tag._clone_exact(), Ty::Num);
    let t = txn(&mut ctx);
    assert_eq!(forged.force_eval(&mut ctx, t), Err(RtError::TypeMismatch));
    // The object itself is untouched and still forces as what it is.
    assert_eq!(c.force_eval(&mut ctx, t), Ok(()));
}

#[test]
fn dangling_reference_is_not_found() {
    let mut ctx = Ctx::new();
    let s = STag::new(&mut ctx);
    let tag = Tag::new(&mut ctx, s);
    let r = ThunkRef::_from_tag(tag, Ty::Num);
    let t = txn(&mut ctx);
    assert_eq!(r.force_eval(&mut ctx, t), Err(RtError::ObjectNotFound));
}

#[test]
fn missing_entry_code_is_reported() {
    let mut ctx = Ctx::new();
    let s = STag::new(&mut ctx);
    let th = Thunk {
        stable: s,
        data: None,
        state: ThunkState::Empty,
        freevars: Vec::new(),
        code: ThunkCode { entry: None, adjoint: None },
        ty: Ty::Num,
    };
    let r = th._put_obj(&mut ctx);
    let t = txn(&mut ctx);
    assert_eq!(r.force_eval(&mut ctx, t), Err(RtError::MissingEntryCode));
}

#[test]
fn allocator_materializes_exactly_once() {
    let mut ctx = Ctx::new();
    let d = Data::new(&mut ctx, Ty::Num, DataCode { alloc: Some(Val::Num(7)) });
    let ds = d._put_obj(&mut ctx);
    let ld = LDataRef::_from_stag(ds, Ty::Num)._get_obj(&ctx).unwrap();
    let t = txn(&mut ctx);
    // Before any write access the payload has never been materialized.
    assert_eq!(ld.get(&ctx, t), Err(RtError::UninitializedPayload));
    // The first write access runs the allocator; later ones find the
    // payload set and never run it again.
    assert_eq!(ld.get_mut(&mut ctx, t), Ok(Val::Num(7)));
    assert_eq!(ld.get_mut(&mut ctx, t), Ok(Val::Num(7)));
    assert_eq!(ld.get(&ctx, t), Ok(Val::Num(7)));
}

#[test]
fn missing_allocator_is_reported() {
    let mut ctx = Ctx::new();
    let d = Data::new(&mut ctx, Ty::Bool, DataCode { alloc: None });
    let ds = d._put_obj(&mut ctx);
    let ld = LDataRef::_from_stag(ds, Ty::Bool)._get_obj(&ctx).unwrap();
    let t = txn(&mut ctx);
    assert_eq!(ld.get_mut(&mut ctx, t), Err(RtError::MissingAllocator));
    assert_eq!(ld.get(&ctx, t), Err(RtError::UninitializedPayload));
}

#[test]
fn readers_observe_one_memoized_value() {
    let mut ctx = Ctx::new();
    let x1 = constant_op(&mut ctx, Val::Num(5));
    let x2 = constant_op(&mut ctx, Val::Num(8));
    let y = add_op(&mut ctx, x1, x2).unwrap();
    let t = txn(&mut ctx);
    assert_eq!(y.force_eval(&mut ctx, t), Ok(()));
    // Every read accessor, however often applied, observes the one value
    // the heap holds for the memoized thunk.
    let ry = y._get_obj(&ctx).unwrap();
    let ds = ry.data.unwrap();
    let ld = LDataRef::_from_stag(ds, Ty::Num)._get_obj(&ctx).unwrap();
    let mut reads = Vec::new();
    for _ in 0..8 {
        reads.push(ld.get(&ctx, t).unwrap());
    }
    for v in reads {
        assert_eq!(v, Val::Num(13));
    }
    assert_eq!(ry.get(&mut ctx, t), Ok(Val::Num(13)));
}

#[test]
fn clone_ref_names_the_same_object_through_a_new_path() {
    let mut ctx = Ctx::new();
    let s = STag::new(&mut ctx);
    let t1 = Tag::new(&mut ctx, s);
    let t2 = t1.clone_ref(&mut ctx);
    assert_eq!(t1.stable, t2.stable);
    assert_ne!(t1.retain, t2.retain);
    let t3 = t1._clone_exact();
    assert!(t3 == t1);
}

#[test]
fn detached_heaps_append_and_look_up() {
    let mut ctx = Ctx::new();
    let mut h = Heap::new(&mut ctx);
    let d = Data::new(&mut ctx, Ty::Num, DataCode { alloc: Some(Val::Num(9)) });
    let s = d.stable;
    assert!(matches!(h.lookup(s), Err(RtError::ObjectNotFound)));
    h.insert(s, HeapEntry::Data(d));
    assert!(matches!(h.lookup(s), Ok(HeapEntry::Data(_))));
}

#[test]
fn configuration_defaults_are_empty() {
    let cfg = DefaultConfig::new();
    assert!(cfg.default_opt_hint.is_none());
    let _hint = OptimizeHint::empty();
    let _exec_ctx = thread_ctx();
    assert_eq!(Val::Num(3).ty(), Ty::Num);
    assert_eq!(Val::Bool(true).ty(), Ty::Bool);
    assert_eq!(Val::Num(40).add_to(&Val::Num(2)), Val::Num(42));
}

#[test]
fn transactions_are_fresh() {
    let mut ctx = Ctx::new();
    let t1 = txn(&mut ctx);
    let t2 = txn(&mut ctx);
    assert_ne!(t1, t2);
}

#[test]
fn add_over_booleans_is_a_mismatch() {
    let mut ctx = Ctx::new();
    let c1 = constant_op(&mut ctx, Val::Bool(true));
    let c2 = constant_op(&mut ctx, Val::Bool(false));
    assert!(matches!(add_op(&mut ctx, c1, c2), Err(RtError::TypeMismatch)));
}

#[test]
fn switch_over_mixed_branch_types_is_a_mismatch() {
    let mut ctx = Ctx::new();
    let c = constant_op(&mut ctx, Val::Bool(true));
    let x1 = constant_op(&mut ctx, Val::Num(1));
    let x2 = constant_op(&mut ctx, Val::Bool(false));
    assert!(matches!(switch_op(&mut ctx, c, x1, x2), Err(RtError::TypeMismatch)));
}

#[test]
fn switch_condition_must_be_boolean() {
    let mut ctx = Ctx::new();
    let c = constant_op(&mut ctx, Val::Num(1));
    let x1 = constant_op(&mut ctx, Val::Num(2));
    let x2 = constant_op(&mut ctx, Val::Num(3));
    assert!(matches!(switch_op(&mut ctx, c, x1, x2), Err(RtError::TypeMismatch)));
}

#[test]
fn add_of_one_reference_twice_doubles_it() {
    let mut ctx = Ctx::new();
    let x = constant_op(&mut ctx, Val::Num(21));
    let xb = x.clone_ref(&mut ctx);
    let y = add_op(&mut ctx, x, xb).unwrap();
    let t = txn(&mut ctx);
    assert_eq!(y.force_eval(&mut ctx, t), Ok(()));
    let ry = y._get_obj(&ctx).unwrap();
    assert_eq!(ry.get(&mut ctx, t), Ok(Val::Num(42)));
}

#[test]
fn addition_wraps_on_overflow() {
    let mut ctx = Ctx::new();
    let x1 = constant_op(&mut ctx, Val::Num(i64::MAX));
    let x2 = constant_op(&mut ctx, Val::Num(1));
    let y = add_op(&mut ctx, x1, x2).unwrap();
    let t = txn(&mut ctx);
    assert_eq!(y.force_eval(&mut ctx, t), Ok(()));
    let ry = y._get_obj(&ctx).unwrap();
    assert_eq!(ry.get(&mut ctx, t), Ok(Val::Num(i64::MIN)));
}

#[test]
fn entry_overwrites_the_placeholder() {
    let mut ctx = Ctx::new();
    let x1 = constant_op(&mut ctx, Val::Num(4));
    let x2 = constant_op(&mut ctx, Val::Num(5));
    let y = add_op(&mut ctx, x1, x2).unwrap();
    let ry = y._get_obj(&ctx).unwrap();
    let ds = ry.data.unwrap();
    let ld = LDataRef::_from_stag(ds, Ty::Num)._get_obj(&ctx).unwrap();
    let t = txn(&mut ctx);
    // Materializing the cell early yields the placeholder; the payload is
    // set once and never unset, though the entry later overwrites it.
    assert_eq!(ld.get_mut(&mut ctx, t), Ok(Val::Num(0)));
    assert_eq!(y.force_eval(&mut ctx, t), Ok(()));
    assert_eq!(ld.get(&ctx, t), Ok(Val::Num(9)));
}
