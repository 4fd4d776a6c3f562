//! What follows from the engines' contracts, for every kernel.

use vstd::prelude::*;
use crate::binary::{element_ok, is_result, on_model};
use crate::bits::{is_zero, negated, ZERO};
use crate::ops::{Op, Vs};
use crate::scalar::{broadcast_on_model, is_broadcast, lhs, rhs};

verus! {

/// The kernel returns `model(op, x, y)` and nothing else for `x` and `y`.
pub open spec fn computes<F: Fn(Op, u32, u32) -> u32>(
    kernel: &F,
    model: spec_fn(Op, u32, u32) -> u32,
    op: Op,
    x: u32,
    y: u32,
) -> bool {
    forall|r: u32| call_ensures(kernel, (op, x, y), r) ==> r == model(op, x, y)
}

/// Grouping changes nothing: where the kernel computes `model` on the
/// elements that share an index, a result of the engine is the sequence
/// that applies `model` index by index and the padding table past the
/// shorter operand.
pub proof fn lemma_grouped_is_elementwise<F: Fn(Op, u32, u32) -> u32>(
    kernel: &F,
    model: spec_fn(Op, u32, u32) -> u32,
    a: Seq<u32>,
    b: Seq<u32>,
    op: Op,
    out: Seq<u32>,
)
    requires
        is_result(kernel, a, b, op, out),
        forall|i: int| 0 <= i < a.len() && i < b.len() ==> computes(kernel, model, op, a[i], b[i]),
    ensures
        out == on_model(model, a, b, op),
{
    assert forall|i: int| 0 <= i < out.len() implies out[i] == on_model(model, a, b, op)[i] by {
        if i < a.len() && i < b.len() {
            assert(computes(kernel, model, op, a[i], b[i]));
        }
    }
    assert(out =~= on_model(model, a, b, op));
}

/// Two results of one operation on the same operands are equal wherever
/// the kernel has one answer for each pair of elements.
pub proof fn lemma_result_unique<F: Fn(Op, u32, u32) -> u32>(
    kernel: &F,
    a: Seq<u32>,
    b: Seq<u32>,
    op: Op,
    first: Seq<u32>,
    second: Seq<u32>,
)
    requires
        is_result(kernel, a, b, op, first),
        is_result(kernel, a, b, op, second),
        forall|i: int, r: u32, q: u32|
            0 <= i < a.len() && i < b.len() && call_ensures(kernel, (op, a[i], b[i]), r)
                && call_ensures(kernel, (op, a[i], b[i]), q) ==> r == q,
    ensures
        first == second,
{
    assert forall|i: int| 0 <= i < first.len() implies first[i] == second[i] by {
        if i < a.len() && i < b.len() {
            assert(call_ensures(kernel, (op, a[i], b[i]), first[i]));
            assert(call_ensures(kernel, (op, a[i], b[i]), second[i]));
        }
    }
    assert(first =~= second);
}

/// Exchanging the operands changes a result, where both reach, only as it
/// changes the kernel's answer: a relation that holds between what the
/// kernel returns for `(a[i], b[i])` and for `(b[i], a[i])` holds between
/// the two results at `i`. For operands of one length that is every index.
pub proof fn lemma_exchange<F: Fn(Op, u32, u32) -> u32>(
    kernel: &F,
    a: Seq<u32>,
    b: Seq<u32>,
    op: Op,
    ab: Seq<u32>,
    ba: Seq<u32>,
    i: int,
    related: spec_fn(u32, u32) -> bool,
)
    requires
        is_result(kernel, a, b, op, ab),
        is_result(kernel, b, a, op, ba),
        0 <= i < a.len(),
        i < b.len(),
        forall|r: u32, q: u32|
            call_ensures(kernel, (op, a[i], b[i]), r) && call_ensures(kernel, (op, b[i], a[i]), q)
                ==> related(r, q),
    ensures
        i < ab.len() == ba.len(),
        related(ab[i], ba[i]),
{
    assert(element_ok(kernel, a, b, op, i, ab[i]));
    assert(element_ok(kernel, b, a, op, i, ba[i]));
}

/// Past the shorter operand the padding table is as symmetric as the
/// operators are: exchanging the operands leaves a sum and a product as
/// they were and negates a difference.
pub proof fn lemma_exchange_padding<F: Fn(Op, u32, u32) -> u32>(
    kernel: &F,
    a: Seq<u32>,
    b: Seq<u32>,
    op: Op,
    ab: Seq<u32>,
    ba: Seq<u32>,
)
    requires
        is_result(kernel, a, b, op, ab),
        is_result(kernel, b, a, op, ba),
    ensures
        ab.len() == ba.len(),
        op == Op::Add || op == Op::Mul ==> forall|i: int|
            0 <= i < ab.len() && !(i < a.len() && i < b.len()) ==> #[trigger] ab[i] == ba[i],
        op == Op::Sub ==> forall|i: int|
            0 <= i < ab.len() && !(i < a.len() && i < b.len()) ==> #[trigger] ab[i] == negated(
                ba[i],
            ),
{
    assert forall|i: int| 0 <= i < ab.len() && !(i < a.len() && i < b.len()) implies (op == Op::Add
        || op == Op::Mul ==> #[trigger] ab[i] == ba[i]) && (op == Op::Sub ==> ab[i] == negated(
        ba[i],
    )) by {
        assert(element_ok(kernel, a, b, op, i, ab[i]));
        assert(element_ok(kernel, b, a, op, i, ba[i]));
        if i < a.len() {
            assert(negated(negated(a[i])) == a[i]);
        }
    }
}

/// Sum and product commute, padding included, wherever the kernel's
/// answers for the elements that share an index do.
pub proof fn lemma_commutes<F: Fn(Op, u32, u32) -> u32>(
    kernel: &F,
    a: Seq<u32>,
    b: Seq<u32>,
    op: Op,
    ab: Seq<u32>,
    ba: Seq<u32>,
)
    requires
        op == Op::Add || op == Op::Mul,
        is_result(kernel, a, b, op, ab),
        is_result(kernel, b, a, op, ba),
        forall|i: int, r: u32, q: u32|
            0 <= i < a.len() && i < b.len() && call_ensures(kernel, (op, a[i], b[i]), r)
                && call_ensures(kernel, (op, b[i], a[i]), q) ==> r == q,
    ensures
        ab == ba,
{
    lemma_exchange_padding(kernel, a, b, op, ab, ba);
    assert forall|i: int| 0 <= i < ab.len() implies ab[i] == ba[i] by {
        if i < a.len() && i < b.len() {
            lemma_exchange(kernel, a, b, op, ab, ba, i, |r: u32, q: u32| r == q);
        }
    }
    assert(ab =~= ba);
}

/// Exchanging the operands of a difference negates it at every index,
/// padding included, wherever the kernel's answers for the elements that
/// share an index are each other's negation.
pub proof fn lemma_difference_negates<F: Fn(Op, u32, u32) -> u32>(
    kernel: &F,
    a: Seq<u32>,
    b: Seq<u32>,
    ab: Seq<u32>,
    ba: Seq<u32>,
)
    requires
        is_result(kernel, a, b, Op::Sub, ab),
        is_result(kernel, b, a, Op::Sub, ba),
        forall|i: int, r: u32, q: u32|
            0 <= i < a.len() && i < b.len() && call_ensures(kernel, (Op::Sub, a[i], b[i]), r)
                && call_ensures(kernel, (Op::Sub, b[i], a[i]), q) ==> r == negated(q),
    ensures
        ab.len() == ba.len(),
        forall|i: int| 0 <= i < ab.len() ==> #[trigger] ab[i] == negated(ba[i]),
{
    lemma_exchange_padding(kernel, a, b, Op::Sub, ab, ba);
    assert forall|i: int| 0 <= i < ab.len() implies #[trigger] ab[i] == negated(ba[i]) by {
        if i < a.len() && i < b.len() {
            lemma_exchange(kernel, a, b, Op::Sub, ab, ba, i, |r: u32, q: u32| r == negated(q));
        }
    }
}

/// A quotient with an empty left operand is zero at every index, for a
/// right operand that holds no zero.
pub proof fn lemma_div_of_nothing<F: Fn(Op, u32, u32) -> u32>(
    kernel: &F,
    b: Seq<u32>,
    out: Seq<u32>,
)
    requires
        is_result(kernel, Seq::<u32>::empty(), b, Op::Div, out),
        forall|i: int| 0 <= i < b.len() ==> !is_zero(#[trigger] b[i]),
    ensures
        out == Seq::new(b.len(), |i: int| ZERO),
{
    assert forall|i: int| 0 <= i < out.len() implies out[i] == ZERO by {
        assert(element_ok(kernel, Seq::<u32>::empty(), b, Op::Div, i, out[i]));
    }
    assert(out =~= Seq::new(b.len(), |i: int| ZERO));
}

/// The two kinds of one operator that differ in the scalar's side relate
/// as the kernel's answers do: a relation that holds between what the
/// kernel returns for `(v[i], s)` and for `(s, v[i])` holds between the
/// vector-first and the scalar-first result at `i`.
pub proof fn lemma_exchange_scalar<F: Fn(Op, u32, u32) -> u32>(
    kernel: &F,
    v: Seq<u32>,
    s: u32,
    vector_first: Vs,
    scalar_first: Vs,
    vs: Seq<u32>,
    sv: Seq<u32>,
    i: int,
    related: spec_fn(u32, u32) -> bool,
)
    requires
        vector_first.op() == scalar_first.op(),
        !vector_first.scalar_first(),
        scalar_first.scalar_first(),
        is_broadcast(kernel, v, s, vector_first, vs),
        is_broadcast(kernel, v, s, scalar_first, sv),
        0 <= i < v.len(),
        forall|r: u32, q: u32|
            call_ensures(kernel, (vector_first.op(), v[i], s), r) && call_ensures(
                kernel,
                (vector_first.op(), s, v[i]),
                q,
            ) ==> related(r, q),
    ensures
        i < vs.len() == sv.len(),
        related(vs[i], sv[i]),
{
    assert(lhs(vector_first, v[i], s) == v[i] && rhs(vector_first, v[i], s) == s);
    assert(lhs(scalar_first, v[i], s) == s && rhs(scalar_first, v[i], s) == v[i]);
    assert(call_ensures(kernel, (vector_first.op(), v[i], s), vs[i]));
    assert(call_ensures(kernel, (scalar_first.op(), s, v[i]), sv[i]));
}

/// `v[i] - s` is the negation of `s - v[i]` at every index, wherever the
/// kernel's answers for an element and the scalar in the two orders are
/// each other's negation.
pub proof fn lemma_scalar_difference_negates<F: Fn(Op, u32, u32) -> u32>(
    kernel: &F,
    v: Seq<u32>,
    s: u32,
    vs: Seq<u32>,
    sv: Seq<u32>,
)
    requires
        is_broadcast(kernel, v, s, Vs::SubScalarFromVec, vs),
        is_broadcast(kernel, v, s, Vs::SubVecFromScalar, sv),
        forall|i: int, r: u32, q: u32|
            0 <= i < v.len() && call_ensures(kernel, (Op::Sub, v[i], s), r) && call_ensures(
                kernel,
                (Op::Sub, s, v[i]),
                q,
            ) ==> r == negated(q),
    ensures
        vs.len() == sv.len(),
        forall|i: int| 0 <= i < vs.len() ==> #[trigger] vs[i] == negated(sv[i]),
{
    assert forall|i: int| 0 <= i < vs.len() implies #[trigger] vs[i] == negated(sv[i]) by {
        lemma_exchange_scalar(
            kernel,
            v,
            s,
            Vs::SubScalarFromVec,
            Vs::SubVecFromScalar,
            vs,
            sv,
            i,
            |r: u32, q: u32| r == negated(q),
        );
    }
}

/// Where the kernel computes `model` on every element paired with the
/// scalar, a result of the scalar engine is `model` applied index by
/// index.
pub proof fn lemma_broadcast_is_elementwise<F: Fn(Op, u32, u32) -> u32>(
    kernel: &F,
    model: spec_fn(Op, u32, u32) -> u32,
    v: Seq<u32>,
    s: u32,
    kind: Vs,
    out: Seq<u32>,
)
    requires
        is_broadcast(kernel, v, s, kind, out),
        forall|i: int|
            0 <= i < v.len() ==> computes(
                kernel,
                model,
                kind.op(),
                lhs(kind, #[trigger] v[i], s),
                rhs(kind, v[i], s),
            ),
    ensures
        out == broadcast_on_model(model, v, s, kind),
{
    assert forall|i: int| 0 <= i < out.len() implies out[i] == broadcast_on_model(
        model,
        v,
        s,
        kind,
    )[i] by {
        assert(computes(kernel, model, kind.op(), lhs(kind, v[i], s), rhs(kind, v[i], s)));
    }
    assert(out =~= broadcast_on_model(model, v, s, kind));
}

} // verus!
