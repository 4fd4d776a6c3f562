//! Element-wise arithmetic over sequences of binary32 values, held as their
//! bit patterns, with zero-padding broadcast for unequal lengths.
//!
//! The arithmetic of one pair of elements is the caller's: every operation
//! takes a kernel, a function from an operator and two bit patterns to the
//! bit pattern of the result. The engines decide which pairs the kernel
//! sees, in which order its operands stand, and what the result holds
//! where one operand has ended.

pub mod array;
pub mod binary;
pub mod bits;
pub mod laws;
pub mod ops;
pub mod scalar;

pub use crate::array::{Array, ArrayError, Operand};
pub use crate::binary::{add, binop, div, mul, sub};
pub use crate::ops::{Op, Vs, LANES};
pub use crate::scalar::{
    add_scalar, div_scalar, mul_scalar, scalar_div, scalar_sub, sub_scalar, vec_scalar_op,
};
