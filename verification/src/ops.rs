//! Operation kinds and the padding table for indices that only one operand
//! reaches.

use vstd::prelude::*;
use crate::bits::{is_zero, negate, negated, zero, NAN, ZERO};

verus! {

/// Number of elements that one lane group covers.
pub const LANES: usize = 8;

/// Operator of a sequence-sequence operation.
#[derive(Clone, Copy, PartialEq, Eq, Debug)]
pub enum Op {
    Add,
    Sub,
    Mul,
    Div,
}

/// Operator of a sequence-scalar operation, with the side the scalar stands
/// on where the operator does not commute.
#[derive(Clone, Copy, PartialEq, Eq, Debug)]
pub enum Vs {
    Add,
    Mul,
    SubVecFromScalar,
    SubScalarFromVec,
    DivVecByScalar,
    DivScalarByVec,
}

impl Vs {
    /// The operator that this kind applies.
    pub open spec fn op(self) -> Op {
        match self {
            Vs::Add => Op::Add,
            Vs::Mul => Op::Mul,
            Vs::SubVecFromScalar | Vs::SubScalarFromVec => Op::Sub,
            Vs::DivVecByScalar | Vs::DivScalarByVec => Op::Div,
        }
    }

    /// Whether the scalar is the operator's left operand: `s - v[i]` and
    /// `s / v[i]`.
    pub open spec fn scalar_first(self) -> bool {
        self == Vs::SubVecFromScalar || self == Vs::DivScalarByVec
    }

    /// Computes [`Vs::op`].
    pub fn operator(self) -> (r: Op)
        ensures
            r == self.op(),
    {
        match self {
            Vs::Add => Op::Add,
            Vs::Mul => Op::Mul,
            Vs::SubVecFromScalar | Vs::SubScalarFromVec => Op::Sub,
            Vs::DivVecByScalar | Vs::DivScalarByVec => Op::Div,
        }
    }

    /// Computes [`Vs::scalar_first`].
    pub fn scalar_on_left(self) -> (r: bool)
        ensures
            r == self.scalar_first(),
    {
        match self {
            Vs::SubVecFromScalar | Vs::DivScalarByVec => true,
            _ => false,
        }
    }
}

/// Result at an index that only the left operand reaches, where the right
/// operand counts as zero: kept by `Add` and `Sub`, absorbed to zero by
/// `Mul`, NaN for `Div`, whatever `x` is.
pub open spec fn left_only(op: Op, x: u32) -> u32 {
    match op {
        Op::Add => x,
        Op::Sub => x,
        Op::Mul => ZERO,
        Op::Div => NAN,
    }
}

/// Result at an index that only the right operand reaches, where the left
/// operand counts as zero: kept by `Add`, negated by `Sub`, zero for `Mul`,
/// and for `Div` zero unless `y` is itself a zero, which gives NaN.
pub open spec fn right_only(op: Op, y: u32) -> u32 {
    match op {
        Op::Add => y,
        Op::Sub => negated(y),
        Op::Mul => ZERO,
        Op::Div => if is_zero(y) {
            NAN
        } else {
            ZERO
        },
    }
}

/// Computes the padding table's left column.
pub fn pad_left(op: Op, x: u32) -> (r: u32)
    ensures
        r == left_only(op, x),
{
    match op {
        Op::Add => x,
        Op::Sub => x,
        Op::Mul => ZERO,
        Op::Div => NAN,
    }
}

/// Computes the padding table's right column.
pub fn pad_right(op: Op, y: u32) -> (r: u32)
    ensures
        r == right_only(op, y),
{
    match op {
        Op::Add => y,
        Op::Sub => negate(y),
        Op::Mul => ZERO,
        Op::Div => if zero(y) {
            NAN
        } else {
            ZERO
        },
    }
}

} // verus!
