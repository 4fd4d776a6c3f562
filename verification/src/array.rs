//! An owned sequence with indexing and operators that take either another
//! sequence or a scalar.

use vstd::prelude::*;
use crate::binary::{is_result, kernel_accepts};
use crate::bits::ZERO;
use crate::ops::{Op, Vs};
use crate::scalar::{is_broadcast, kernel_accepts_scalar};

verus! {

/// An owned sequence of binary32 bit patterns.
pub struct Array {
    data: Vec<u32>,
}

/// The other side of an operator.
pub enum Operand {
    /// Another sequence, combined element by element.
    Array(Array),
    /// One value, combined with every element.
    Scalar(u32),
}

/// Why an element could not be read.
#[derive(Clone, Copy, PartialEq, Eq, Debug)]
pub enum ArrayError {
    /// The index is negative or not below the length.
    IndexOutOfRange,
}

impl View for Array {
    type V = Seq<u32>;

    closed spec fn view(&self) -> Seq<u32> {
        self.data@
    }
}

/// The scalar kind of `op` with the sequence on the operator's left, or on
/// its right if `reflected`.
pub open spec fn scalar_kind(op: Op, reflected: bool) -> Vs {
    match op {
        Op::Add => Vs::Add,
        Op::Mul => Vs::Mul,
        Op::Sub => if reflected {
            Vs::SubVecFromScalar
        } else {
            Vs::SubScalarFromVec
        },
        Op::Div => if reflected {
            Vs::DivScalarByVec
        } else {
            Vs::DivVecByScalar
        },
    }
}

/// The kernel accepts all that `op` hands it for `this` and `other`, with
/// `this` on the operator's left, or on its right if `reflected`.
pub open spec fn admits<F: Fn(Op, u32, u32) -> u32>(
    kernel: &F,
    this: Seq<u32>,
    other: Operand,
    op: Op,
    reflected: bool,
) -> bool {
    match other {
        Operand::Array(o) => if reflected {
            kernel_accepts(kernel, o@, this, op)
        } else {
            kernel_accepts(kernel, this, o@, op)
        },
        Operand::Scalar(s) => kernel_accepts_scalar(kernel, this, s, scalar_kind(op, reflected)),
    }
}

/// `out` is `op` of `this` and `other`, with `this` on the operator's left,
/// or on its right if `reflected`: the sequence engine's result for another
/// sequence, the scalar engine's for a scalar.
pub open spec fn applied<F: Fn(Op, u32, u32) -> u32>(
    kernel: &F,
    this: Seq<u32>,
    other: Operand,
    op: Op,
    reflected: bool,
    out: Seq<u32>,
) -> bool {
    match other {
        Operand::Array(o) => if reflected {
            is_result(kernel, o@, this, op, out)
        } else {
            is_result(kernel, this, o@, op, out)
        },
        Operand::Scalar(s) => is_broadcast(kernel, this, s, scalar_kind(op, reflected), out),
    }
}

impl Array {
    /// Takes the elements as they are.
    pub fn new(data: Vec<u32>) -> (r: Self)
        ensures
            r@ == data@,
    {
        Array { data }
    }

    /// `n` elements, each positive zero.
    pub fn zeroes(n: usize) -> (r: Self)
        ensures
            r@ == Seq::new(n as nat, |i: int| ZERO),
    {
        let data: Vec<u32> = vec![0u32; n];
        assert(data@ =~= Seq::new(n as nat, |i: int| ZERO));
        Array { data }
    }

    /// A copy of the elements.
    pub fn tolist(&self) -> (r: Vec<u32>)
        ensures
            r@ == self@,
    {
        let r = self.data.clone();
        assert(r@ =~= self@);
        r
    }

    /// Number of elements.
    pub fn len(&self) -> (n: usize)
        ensures
            n == self@.len(),
    {
        self.data.len()
    }

    /// The element at `idx`, counted from zero.
    pub fn get(&self, idx: isize) -> (r: Result<u32, ArrayError>)
        ensures
            0 <= idx < self@.len() ==> r == Ok::<u32, ArrayError>(self@[idx as int]),
            !(0 <= idx < self@.len()) ==> r == Err::<u32, ArrayError>(ArrayError::IndexOutOfRange),
    {
        if idx < 0 {
            return Err(ArrayError::IndexOutOfRange);
        }
        let at = idx as usize;
        if at >= self.data.len() {
            return Err(ArrayError::IndexOutOfRange);
        }
        Ok(self.data[at])
    }

    /// `self + rhs`.
    pub fn add<F: Fn(Op, u32, u32) -> u32>(&self, rhs: &Operand, kernel: &F) -> (out: Array)
        requires
            admits(kernel, self@, *rhs, Op::Add, false),
        ensures
            applied(kernel, self@, *rhs, Op::Add, false, out@),
    {
        match rhs {
            Operand::Array(o) => Array { data: crate::binary::add(self.data.as_slice(), o.data.as_slice(), kernel) },
            Operand::Scalar(s) => Array { data: crate::scalar::add_scalar(self.data.as_slice(), *s, kernel) },
        }
    }

    /// `lhs + self`, computed as `self + lhs`.
    pub fn radd<F: Fn(Op, u32, u32) -> u32>(&self, lhs: &Operand, kernel: &F) -> (out: Array)
        requires
            admits(kernel, self@, *lhs, Op::Add, false),
        ensures
            applied(kernel, self@, *lhs, Op::Add, false, out@),
    {
        self.add(lhs, kernel)
    }

    /// `self - rhs`.
    pub fn sub<F: Fn(Op, u32, u32) -> u32>(&self, rhs: &Operand, kernel: &F) -> (out: Array)
        requires
            admits(kernel, self@, *rhs, Op::Sub, false),
        ensures
            applied(kernel, self@, *rhs, Op::Sub, false, out@),
    {
        match rhs {
            Operand::Array(o) => Array { data: crate::binary::sub(self.data.as_slice(), o.data.as_slice(), kernel) },
            Operand::Scalar(s) => Array { data: crate::scalar::sub_scalar(self.data.as_slice(), *s, kernel) },
        }
    }

    /// `lhs - self`.
    pub fn rsub<F: Fn(Op, u32, u32) -> u32>(&self, lhs: &Operand, kernel: &F) -> (out: Array)
        requires
            admits(kernel, self@, *lhs, Op::Sub, true),
        ensures
            applied(kernel, self@, *lhs, Op::Sub, true, out@),
    {
        match lhs {
            Operand::Array(o) => Array { data: crate::binary::sub(o.data.as_slice(), self.data.as_slice(), kernel) },
            Operand::Scalar(s) => Array { data: crate::scalar::scalar_sub(*s, self.data.as_slice(), kernel) },
        }
    }

    /// `self * rhs`.
    pub fn mul<F: Fn(Op, u32, u32) -> u32>(&self, rhs: &Operand, kernel: &F) -> (out: Array)
        requires
            admits(kernel, self@, *rhs, Op::Mul, false),
        ensures
            applied(kernel, self@, *rhs, Op::Mul, false, out@),
    {
        match rhs {
            Operand::Array(o) => Array { data: crate::binary::mul(self.data.as_slice(), o.data.as_slice(), kernel) },
            Operand::Scalar(s) => Array { data: crate::scalar::mul_scalar(self.data.as_slice(), *s, kernel) },
        }
    }

    /// `lhs * self`, computed as `self * lhs`.
    pub fn rmul<F: Fn(Op, u32, u32) -> u32>(&self, lhs: &Operand, kernel: &F) -> (out: Array)
        requires
            admits(kernel, self@, *lhs, Op::Mul, false),
        ensures
            applied(kernel, self@, *lhs, Op::Mul, false, out@),
    {
        self.mul(lhs, kernel)
    }

    /// `self / rhs`.
    pub fn truediv<F: Fn(Op, u32, u32) -> u32>(&self, rhs: &Operand, kernel: &F) -> (out: Array)
        requires
            admits(kernel, self@, *rhs, Op::Div, false),
        ensures
            applied(kernel, self@, *rhs, Op::Div, false, out@),
    {
        match rhs {
            Operand::Array(o) => Array { data: crate::binary::div(self.data.as_slice(), o.data.as_slice(), kernel) },
            Operand::Scalar(s) => Array { data: crate::scalar::div_scalar(self.data.as_slice(), *s, kernel) },
        }
    }

    /// `lhs / self`.
    pub fn rtruediv<F: Fn(Op, u32, u32) -> u32>(&self, lhs: &Operand, kernel: &F) -> (out: Array)
        requires
            admits(kernel, self@, *lhs, Op::Div, true),
        ensures
            applied(kernel, self@, *lhs, Op::Div, true, out@),
    {
        match lhs {
            Operand::Array(o) => Array { data: crate::binary::div(o.data.as_slice(), self.data.as_slice(), kernel) },
            Operand::Scalar(s) => Array { data: crate::scalar::scalar_div(*s, self.data.as_slice(), kernel) },
        }
    }
}

} // verus!
