//! The sequence-scalar engine.

use vstd::prelude::*;
use crate::ops::{Op, Vs, LANES};

verus! {

/// Left operand of the operator at an element `x` with the scalar `s`.
pub open spec fn lhs(kind: Vs, x: u32, s: u32) -> u32 {
    if kind.scalar_first() {
        s
    } else {
        x
    }
}

/// Right operand of the operator at an element `x` with the scalar `s`.
pub open spec fn rhs(kind: Vs, x: u32, s: u32) -> u32 {
    if kind.scalar_first() {
        x
    } else {
        s
    }
}

/// `out` is a result of `kind` on `v` and the scalar `s`: as long as `v`,
/// and at every index a value that the kernel can return for the element
/// and the scalar, in the order that `kind` gives.
pub open spec fn is_broadcast<F: Fn(Op, u32, u32) -> u32>(
    kernel: &F,
    v: Seq<u32>,
    s: u32,
    kind: Vs,
    out: Seq<u32>,
) -> bool {
    &&& out.len() == v.len()
    &&& forall|i: int|
        0 <= i < v.len() ==> call_ensures(
            kernel,
            (kind.op(), lhs(kind, v[i], s), rhs(kind, v[i], s)),
            #[trigger] out[i],
        )
}

/// The sequence that `kind` gives on `v` and `s` when `model` stands for
/// the kernel, every index on its own.
pub open spec fn broadcast_on_model(
    model: spec_fn(Op, u32, u32) -> u32,
    v: Seq<u32>,
    s: u32,
    kind: Vs,
) -> Seq<u32> {
    Seq::new(v.len(), |i: int| model(kind.op(), lhs(kind, v[i], s), rhs(kind, v[i], s)))
}

/// The kernel accepts every element of `v` together with the scalar.
pub open spec fn kernel_accepts_scalar<F: Fn(Op, u32, u32) -> u32>(
    kernel: &F,
    v: Seq<u32>,
    s: u32,
    kind: Vs,
) -> bool {
    forall|i: int|
        0 <= i < v.len() ==> call_requires(
            kernel,
            (kind.op(), lhs(kind, v[i], s), rhs(kind, v[i], s)),
        )
}

/// Computes one element against the scalar.
fn scalar_lane<F: Fn(Op, u32, u32) -> u32>(kernel: &F, kind: Vs, x: u32, s: u32) -> (r: u32)
    requires
        call_requires(kernel, (kind.op(), lhs(kind, x, s), rhs(kind, x, s))),
    ensures
        call_ensures(kernel, (kind.op(), lhs(kind, x, s), rhs(kind, x, s)), r),
{
    if kind.scalar_on_left() {
        kernel(kind.operator(), s, x)
    } else {
        kernel(kind.operator(), x, s)
    }
}

/// Computes the lane group of `v` that starts at `base` against the scalar
/// in every lane, and leaves the rest of `out` as it was.
fn splat_group<F: Fn(Op, u32, u32) -> u32>(
    v: &[u32],
    s: u32,
    kind: Vs,
    kernel: &F,
    base: usize,
    out: &mut Vec<u32>,
)
    requires
        kernel_accepts_scalar(kernel, v@, s, kind),
        base + LANES <= v.len(),
        old(out).len() == v.len(),
    ensures
        final(out).len() == old(out).len(),
        forall|j: int| 0 <= j < base ==> final(out)[j] == old(out)[j],
        forall|j: int| base + LANES <= j < old(out).len() ==> final(out)[j] == old(out)[j],
        forall|j: int|
            base <= j < base + LANES ==> call_ensures(
                kernel,
                (kind.op(), lhs(kind, v[j], s), rhs(kind, v[j], s)),
                #[trigger] final(out)[j],
            ),
{
    let mut lane: usize = 0;
    while lane < LANES
        invariant
            lane <= LANES,
            kernel_accepts_scalar(kernel, v@, s, kind),
            base + LANES <= v.len(),
            out.len() == v.len(),
            out.len() == old(out).len(),
            forall|j: int| 0 <= j < base ==> out[j] == old(out)[j],
            forall|j: int| base + lane <= j < out.len() ==> out[j] == old(out)[j],
            forall|j: int|
                base <= j < base + lane ==> call_ensures(
                    kernel,
                    (kind.op(), lhs(kind, v[j], s), rhs(kind, v[j], s)),
                    #[trigger] out[j],
                ),
        decreases LANES - lane,
    {
        let r = scalar_lane(kernel, kind, v[base + lane], s);
        out.set(base + lane, r);
        lane += 1;
    }
}

/// Applies `kind` between every element of `v` and the scalar `s`: full lane
/// groups first, the rest one by one.
pub fn vec_scalar_op<F: Fn(Op, u32, u32) -> u32>(v: &[u32], s: u32, kind: Vs, kernel: &F) -> (out:
    Vec<u32>)
    requires
        kernel_accepts_scalar(kernel, v@, s, kind),
    ensures
        is_broadcast(kernel, v@, s, kind, out@),
{
    let n = v.len();
    let main = (n / LANES) * LANES;
    let mut out: Vec<u32> = vec![0u32; n];

    let mut base: usize = 0;
    while base < main
        invariant
            base <= main <= n,
            base % LANES == 0,
            main % LANES == 0,
            n == v.len(),
            out.len() == n,
            kernel_accepts_scalar(kernel, v@, s, kind),
            forall|j: int|
                0 <= j < base ==> call_ensures(
                    kernel,
                    (kind.op(), lhs(kind, v[j], s), rhs(kind, v[j], s)),
                    #[trigger] out[j],
                ),
        decreases main - base,
    {
        splat_group(v, s, kind, kernel, base, &mut out);
        base += LANES;
    }

    let mut i: usize = main;
    while i < n
        invariant
            main <= i <= n,
            n == v.len(),
            out.len() == n,
            kernel_accepts_scalar(kernel, v@, s, kind),
            forall|j: int|
                0 <= j < i ==> call_ensures(
                    kernel,
                    (kind.op(), lhs(kind, v[j], s), rhs(kind, v[j], s)),
                    #[trigger] out[j],
                ),
        decreases n - i,
    {
        let r = scalar_lane(kernel, kind, v[i], s);
        out.set(i, r);
        i += 1;
    }
    out
}

/// `v[i] + s` at every index.
pub fn add_scalar<F: Fn(Op, u32, u32) -> u32>(v: &[u32], s: u32, kernel: &F) -> (out: Vec<u32>)
    requires
        forall|i: int| 0 <= i < v@.len() ==> call_requires(kernel, (Op::Add, v@[i], s)),
    ensures
        out@.len() == v@.len(),
        forall|i: int|
            0 <= i < v@.len() ==> call_ensures(kernel, (Op::Add, v@[i], s), #[trigger] out@[i]),
        is_broadcast(kernel, v@, s, Vs::Add, out@),
{
    vec_scalar_op(v, s, Vs::Add, kernel)
}

/// `v[i] - s` at every index.
pub fn sub_scalar<F: Fn(Op, u32, u32) -> u32>(v: &[u32], s: u32, kernel: &F) -> (out: Vec<u32>)
    requires
        forall|i: int| 0 <= i < v@.len() ==> call_requires(kernel, (Op::Sub, v@[i], s)),
    ensures
        out@.len() == v@.len(),
        forall|i: int|
            0 <= i < v@.len() ==> call_ensures(kernel, (Op::Sub, v@[i], s), #[trigger] out@[i]),
        is_broadcast(kernel, v@, s, Vs::SubScalarFromVec, out@),
{
    vec_scalar_op(v, s, Vs::SubScalarFromVec, kernel)
}

/// `s - v[i]` at every index.
pub fn scalar_sub<F: Fn(Op, u32, u32) -> u32>(s: u32, v: &[u32], kernel: &F) -> (out: Vec<u32>)
    requires
        forall|i: int| 0 <= i < v@.len() ==> call_requires(kernel, (Op::Sub, s, v@[i])),
    ensures
        out@.len() == v@.len(),
        forall|i: int|
            0 <= i < v@.len() ==> call_ensures(kernel, (Op::Sub, s, v@[i]), #[trigger] out@[i]),
        is_broadcast(kernel, v@, s, Vs::SubVecFromScalar, out@),
{
    vec_scalar_op(v, s, Vs::SubVecFromScalar, kernel)
}

/// `v[i] * s` at every index.
pub fn mul_scalar<F: Fn(Op, u32, u32) -> u32>(v: &[u32], s: u32, kernel: &F) -> (out: Vec<u32>)
    requires
        forall|i: int| 0 <= i < v@.len() ==> call_requires(kernel, (Op::Mul, v@[i], s)),
    ensures
        out@.len() == v@.len(),
        forall|i: int|
            0 <= i < v@.len() ==> call_ensures(kernel, (Op::Mul, v@[i], s), #[trigger] out@[i]),
        is_broadcast(kernel, v@, s, Vs::Mul, out@),
{
    vec_scalar_op(v, s, Vs::Mul, kernel)
}

/// `v[i] / s` at every index.
pub fn div_scalar<F: Fn(Op, u32, u32) -> u32>(v: &[u32], s: u32, kernel: &F) -> (out: Vec<u32>)
    requires
        forall|i: int| 0 <= i < v@.len() ==> call_requires(kernel, (Op::Div, v@[i], s)),
    ensures
        out@.len() == v@.len(),
        forall|i: int|
            0 <= i < v@.len() ==> call_ensures(kernel, (Op::Div, v@[i], s), #[trigger] out@[i]),
        is_broadcast(kernel, v@, s, Vs::DivVecByScalar, out@),
{
    vec_scalar_op(v, s, Vs::DivVecByScalar, kernel)
}

/// `s / v[i]` at every index.
pub fn scalar_div<F: Fn(Op, u32, u32) -> u32>(s: u32, v: &[u32], kernel: &F) -> (out: Vec<u32>)
    requires
        forall|i: int| 0 <= i < v@.len() ==> call_requires(kernel, (Op::Div, s, v@[i])),
    ensures
        out@.len() == v@.len(),
        forall|i: int|
            0 <= i < v@.len() ==> call_ensures(kernel, (Op::Div, s, v@[i]), #[trigger] out@[i]),
        is_broadcast(kernel, v@, s, Vs::DivScalarByVec, out@),
{
    vec_scalar_op(v, s, Vs::DivScalarByVec, kernel)
}

} // verus!
