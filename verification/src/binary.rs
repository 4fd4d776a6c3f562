//! The sequence-sequence engine.

use vstd::prelude::*;
use crate::bits::{negated, NAN, ZERO};
use crate::ops::{left_only, pad_left, pad_right, right_only, Op, LANES};

verus! {

/// What index `i` of a result must hold: a value that the kernel can return
/// for the two elements where both operands reach `i`, else the padding
/// table's entry for the operand that does.
pub open spec fn element_ok<F: Fn(Op, u32, u32) -> u32>(
    kernel: &F,
    a: Seq<u32>,
    b: Seq<u32>,
    op: Op,
    i: int,
    r: u32,
) -> bool {
    if i < a.len() && i < b.len() {
        call_ensures(kernel, (op, a[i], b[i]), r)
    } else if i < a.len() {
        r == left_only(op, a[i])
    } else {
        r == right_only(op, b[i])
    }
}

/// `out` is a result of `op` on `a` and `b`: as long as the longer operand,
/// and right at every index.
pub open spec fn is_result<F: Fn(Op, u32, u32) -> u32>(
    kernel: &F,
    a: Seq<u32>,
    b: Seq<u32>,
    op: Op,
    out: Seq<u32>,
) -> bool {
    &&& out.len() == if a.len() >= b.len() { a.len() } else { b.len() }
    &&& forall|i: int| 0 <= i < out.len() ==> element_ok(kernel, a, b, op, i, #[trigger] out[i])
}

/// The sequence that `op` gives on `a` and `b` when `model` stands for the
/// kernel: `model` where both operands reach, the padding table past the
/// shorter one, every index on its own.
pub open spec fn on_model(
    model: spec_fn(Op, u32, u32) -> u32,
    a: Seq<u32>,
    b: Seq<u32>,
    op: Op,
) -> Seq<u32> {
    Seq::new(
        if a.len() >= b.len() {
            a.len()
        } else {
            b.len()
        },
        |i: int|
            if i < a.len() && i < b.len() {
                model(op, a[i], b[i])
            } else if i < a.len() {
                left_only(op, a[i])
            } else {
                right_only(op, b[i])
            },
    )
}

/// The kernel accepts every pair of elements that `a` and `b` hold at one
/// index.
pub open spec fn kernel_accepts<F: Fn(Op, u32, u32) -> u32>(
    kernel: &F,
    a: Seq<u32>,
    b: Seq<u32>,
    op: Op,
) -> bool {
    forall|i: int| 0 <= i < a.len() && i < b.len() ==> call_requires(kernel, (op, a[i], b[i]))
}

/// Computes the lane group that starts at `base`, which both operands cover
/// in full, and leaves the rest of `out` as it was.
fn lane_group<F: Fn(Op, u32, u32) -> u32>(
    a: &[u32],
    b: &[u32],
    op: Op,
    kernel: &F,
    base: usize,
    out: &mut Vec<u32>,
)
    requires
        kernel_accepts(kernel, a@, b@, op),
        base + LANES <= a.len(),
        base + LANES <= b.len(),
        base + LANES <= old(out).len(),
    ensures
        final(out).len() == old(out).len(),
        forall|j: int| 0 <= j < base ==> final(out)[j] == old(out)[j],
        forall|j: int| base + LANES <= j < old(out).len() ==> final(out)[j] == old(out)[j],
        forall|j: int|
            base <= j < base + LANES ==> call_ensures(
                kernel,
                (op, a[j], b[j]),
                #[trigger] final(out)[j],
            ),
{
    let mut lane: usize = 0;
    while lane < LANES
        invariant
            lane <= LANES,
            kernel_accepts(kernel, a@, b@, op),
            base + LANES <= a.len(),
            base + LANES <= b.len(),
            base + LANES <= out.len(),
            out.len() == old(out).len(),
            forall|j: int| 0 <= j < base ==> out[j] == old(out)[j],
            forall|j: int| base + lane <= j < out.len() ==> out[j] == old(out)[j],
            forall|j: int|
                base <= j < base + lane ==> call_ensures(kernel, (op, a[j], b[j]), #[trigger] out[j]),
        decreases LANES - lane,
    {
        let r = kernel(op, a[base + lane], b[base + lane]);
        out.set(base + lane, r);
        lane += 1;
    }
}

/// Applies `op` to `a` and `b` element by element. Where both reach, full
/// lane groups come first and the rest one by one; where one operand has
/// ended, the padding table decides.
pub fn binop<F: Fn(Op, u32, u32) -> u32>(a: &[u32], b: &[u32], op: Op, kernel: &F) -> (out: Vec<
    u32,
>)
    requires
        kernel_accepts(kernel, a@, b@, op),
    ensures
        is_result(kernel, a@, b@, op, out@),
{
    let a_len = a.len();
    let b_len = b.len();
    let n = if a_len >= b_len { a_len } else { b_len };
    let common = if a_len >= b_len { b_len } else { a_len };
    let common_main = (common / LANES) * LANES;
    let mut out: Vec<u32> = vec![0u32; n];

    let mut base: usize = 0;
    while base < common_main
        invariant
            base <= common_main <= common,
            base % LANES == 0,
            common_main % LANES == 0,
            common <= a.len(),
            common <= b.len(),
            common <= n,
            out.len() == n,
            kernel_accepts(kernel, a@, b@, op),
            forall|j: int| 0 <= j < base ==> call_ensures(kernel, (op, a[j], b[j]), #[trigger] out[j]),
        decreases common_main - base,
    {
        lane_group(a, b, op, kernel, base, &mut out);
        base += LANES;
    }

    let mut i: usize = common_main;
    while i < common
        invariant
            common_main <= i <= common,
            common <= a.len(),
            common <= b.len(),
            common <= n,
            out.len() == n,
            kernel_accepts(kernel, a@, b@, op),
            forall|j: int| 0 <= j < i ==> call_ensures(kernel, (op, a[j], b[j]), #[trigger] out[j]),
        decreases common - i,
    {
        let r = kernel(op, a[i], b[i]);
        out.set(i, r);
        i += 1;
    }

    while i < n
        invariant
            common <= i <= n,
            a_len == a.len(),
            b_len == b.len(),
            n == if a_len >= b_len { a_len } else { b_len },
            common == if a_len >= b_len { b_len } else { a_len },
            out.len() == n,
            forall|j: int| 0 <= j < i ==> element_ok(kernel, a@, b@, op, j, #[trigger] out[j]),
        decreases n - i,
    {
        let r = if a_len > b_len {
            pad_left(op, a[i])
        } else {
            pad_right(op, b[i])
        };
        out.set(i, r);
        i += 1;
    }
    out
}

/// Element-wise sum. Past the end of the shorter operand the longer one is
/// kept as it is.
pub fn add<F: Fn(Op, u32, u32) -> u32>(a: &[u32], b: &[u32], kernel: &F) -> (out: Vec<u32>)
    requires
        kernel_accepts(kernel, a@, b@, Op::Add),
    ensures
        is_result(kernel, a@, b@, Op::Add, out@),
        b@.len() == 0 ==> out@ == a@,
        a@.len() == 0 ==> out@ == b@,
{
    let out = binop(a, b, Op::Add, kernel);
    proof {
        if b@.len() == 0 {
            assert(out@ =~= a@);
        }
        if a@.len() == 0 {
            assert(out@ =~= b@);
        }
    }
    out
}

/// Element-wise difference `a - b`. Past the end of `b` the elements of `a`
/// are kept; past the end of `a` those of `b` are negated.
pub fn sub<F: Fn(Op, u32, u32) -> u32>(a: &[u32], b: &[u32], kernel: &F) -> (out: Vec<u32>)
    requires
        kernel_accepts(kernel, a@, b@, Op::Sub),
    ensures
        is_result(kernel, a@, b@, Op::Sub, out@),
        b@.len() == 0 ==> out@ == a@,
        a@.len() == 0 ==> out@ == Seq::new(b@.len(), |i: int| negated(b@[i])),
{
    let out = binop(a, b, Op::Sub, kernel);
    proof {
        if b@.len() == 0 {
            assert(out@ =~= a@);
        }
        if a@.len() == 0 {
            assert(out@ =~= Seq::new(b@.len(), |i: int| negated(b@[i])));
        }
    }
    out
}

/// Element-wise product. Past the end of the shorter operand every element
/// is zero.
pub fn mul<F: Fn(Op, u32, u32) -> u32>(a: &[u32], b: &[u32], kernel: &F) -> (out: Vec<u32>)
    requires
        kernel_accepts(kernel, a@, b@, Op::Mul),
    ensures
        is_result(kernel, a@, b@, Op::Mul, out@),
        a@.len() == 0 || b@.len() == 0 ==> out@ == Seq::new(out@.len(), |i: int| ZERO),
{
    let out = binop(a, b, Op::Mul, kernel);
    proof {
        if a@.len() == 0 || b@.len() == 0 {
            assert(out@ =~= Seq::new(out@.len(), |i: int| ZERO));
        }
    }
    out
}

/// Element-wise quotient `a / b`. Past the end of `b` every element is NaN;
/// past the end of `a` an element is zero, or NaN where `b` holds a zero.
pub fn div<F: Fn(Op, u32, u32) -> u32>(a: &[u32], b: &[u32], kernel: &F) -> (out: Vec<u32>)
    requires
        kernel_accepts(kernel, a@, b@, Op::Div),
    ensures
        is_result(kernel, a@, b@, Op::Div, out@),
        b@.len() == 0 ==> out@ == Seq::new(a@.len(), |i: int| NAN),
        a@.len() == 0 ==> out@ == Seq::new(b@.len(), |i: int| right_only(Op::Div, b@[i])),
{
    let out = binop(a, b, Op::Div, kernel);
    proof {
        if b@.len() == 0 {
            assert(out@ =~= Seq::new(a@.len(), |i: int| NAN));
        }
        if a@.len() == 0 {
            assert(out@ =~= Seq::new(b@.len(), |i: int| right_only(Op::Div, b@[i])));
        }
    }
    out
}

} // verus!
