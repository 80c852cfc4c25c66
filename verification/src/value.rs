//! Payload values and their type tags.
//!
//! The heap is heterogeneous: a cell may hold a boolean (the condition of a
//! conditional selection) or a number (the operand of an arithmetic
//! operation).  Each object carries a [`Ty`] tag, and every lookup checks the
//! tag of the stored object against the type the caller expects.  Numeric
//! kernels are not the runtime's concern; the numeric payload is a machine
//! integer with wrapping addition, enough to drive the reference operations.

use vstd::prelude::*;

verus! {

/// The payload type of a heap object: which kind of value its cell holds.
#[derive(Clone, Copy, PartialEq, Eq, Structural, Debug)]
pub enum Ty {
    Bool,
    Num,
}

/// A payload value held in a data cell.
#[derive(Clone, Copy, PartialEq, Eq, Structural, Debug)]
pub enum Val {
    Bool(bool),
    Num(i64),
}

/// The type tag of a value.
pub open spec fn val_ty(v: Val) -> Ty {
    match v {
        Val::Bool(_) => Ty::Bool,
        Val::Num(_) => Ty::Num,
    }
}

/// The number inside a numeric value; zero on a boolean.
pub open spec fn num_of(v: Val) -> i64 {
    match v {
        Val::Num(n) => n,
        Val::Bool(_) => 0,
    }
}

/// The boolean inside a boolean value; false on a number.
pub open spec fn bool_of(v: Val) -> bool {
    match v {
        Val::Bool(b) => b,
        Val::Num(_) => false,
    }
}

/// Addition on the mathematical integers, wrapped into `i64`.
pub open spec fn wrap_add(a: int, b: int) -> i64 {
    let s = a + b;
    if s > i64::MAX {
        (s - 0x1_0000_0000_0000_0000) as i64
    } else if s < i64::MIN {
        (s + 0x1_0000_0000_0000_0000) as i64
    } else {
        s as i64
    }
}

/// The sum of two numeric values, wrapping on overflow.
pub open spec fn add_vals(a: Val, b: Val) -> Val {
    Val::Num(wrap_add(num_of(a) as int, num_of(b) as int))
}

/// The placeholder value of each payload type, materialized by the
/// allocators of operation cells before the entry code overwrites it.
pub open spec fn default_val(ty: Ty) -> Val {
    match ty {
        Ty::Bool => Val::Bool(false),
        Ty::Num => Val::Num(0),
    }
}

impl Val {
    /// The placeholder value of a payload type.
    pub fn default_of(ty: Ty) -> (v: Val)
        ensures
            v == default_val(ty),
    {
        match ty {
            Ty::Bool => Val::Bool(false),
            Ty::Num => Val::Num(0),
        }
    }

    /// The type tag of this value.
    pub fn ty(&self) -> (t: Ty)
        ensures
            t == val_ty(*self),
    {
        match self {
            Val::Bool(_) => Ty::Bool,
            Val::Num(_) => Ty::Num,
        }
    }

    /// The sum of two numeric values, wrapping on overflow; booleans count
    /// as zero.
    pub fn add_to(&self, other: &Val) -> (r: Val)
        ensures
            r == add_vals(*self, *other),
    {
        let a: i64 = match self {
            Val::Num(n) => *n,
            Val::Bool(_) => 0,
        };
        let b: i64 = match other {
            Val::Num(n) => *n,
            Val::Bool(_) => 0,
        };
        Val::Num(a.wrapping_add(b))
    }
}

} // verus!
