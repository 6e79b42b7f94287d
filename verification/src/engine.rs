//! The field engine: batched operations over arrays of reduced elements.
//!
//! Each operation walks a contiguous index range of its input arrays and
//! combines elements with the verified limb arithmetic of `element` or the
//! Montgomery kernel.  The range forms let one function serve both the
//! whole-array entry points and the per-chunk work of the dispatcher.

use vstd::arithmetic::div_mod::{lemma_add_mod_noop, lemma_small_mod};
use vstd::arithmetic::mul::lemma_mul_is_distributive_add_other_way;
use vstd::prelude::*;

use crate::constants::{lemma_p_bound, p_nat, r_inv_nat};
use crate::element::{
    add_mod, fe_add_mod, fe_ok, fe_sub_mod, fe_val, fe_zero, mul_mont, sub_mod, FieldElement,
};
use crate::kernel::mont_mul_kernel;

verus! {

/// The integer values of a sequence of elements.
pub open spec fn vals(s: Seq<FieldElement>) -> Seq<nat> {
    s.map(|i: int, e: FieldElement| fe_val(e))
}

/// Every element of the sequence is reduced.
pub open spec fn arr_ok(s: Seq<FieldElement>) -> bool {
    forall|i: int| 0 <= i < s.len() ==> fe_ok(#[trigger] s[i])
}

/// The plain (unreduced) sum of a sequence of residue values.
pub open spec fn seq_sum(s: Seq<nat>) -> nat
    decreases s.len(),
{
    if s.len() == 0 {
        0
    } else {
        seq_sum(s.drop_last()) + s.last()
    }
}

/// The plain (unreduced) inner product of two equally long value sequences.
pub open spec fn ip_sum(x: Seq<nat>, y: Seq<nat>) -> nat
    decreases x.len(),
{
    if x.len() == 0 || y.len() == 0 {
        0
    } else {
        ip_sum(x.drop_last(), y.drop_last()) + x.last() * y.last()
    }
}

/// The three element-wise operations of the engine.
#[derive(Clone, Copy, Debug)]
pub enum BinOp {
    /// Modular addition of direct-form residues.
    Add,
    /// Modular subtraction of direct-form residues.
    Sub,
    /// Montgomery multiplication of in-domain representatives.
    Mul,
}

/// What one element-wise operation computes on a pair of residues.
pub open spec fn bin_val(op: BinOp, a: nat, b: nat) -> nat {
    match op {
        BinOp::Add => add_mod(a, b),
        BinOp::Sub => sub_mod(a, b),
        BinOp::Mul => mul_mont(a, b),
    }
}

/// Applies one element-wise operation to the index range `[start, end)` of
/// two arrays, yielding the range's results in order.
pub fn map_op_range(
    op: BinOp,
    x: &Vec<FieldElement>,
    y: &Vec<FieldElement>,
    start: usize,
    end: usize,
) -> (r: Vec<FieldElement>)
    requires
        start <= end <= x@.len(),
        x@.len() == y@.len(),
        arr_ok(x@),
        arr_ok(y@),
    ensures
        r@.len() == end - start,
        arr_ok(r@),
        forall|j: int|
            0 <= j < r@.len() ==> fe_val(r@[j]) == bin_val(
                op,
                fe_val(x@[start + j]),
                fe_val(y@[start + j]),
            ),
{
    let mut out: Vec<FieldElement> = Vec::new();
    let mut i = start;
    while i < end
        invariant
            start <= i <= end <= x@.len(),
            x@.len() == y@.len(),
            arr_ok(x@),
            arr_ok(y@),
            out@.len() == i - start,
            arr_ok(out@),
            forall|j: int|
                0 <= j < out@.len() ==> fe_val(out@[j]) == bin_val(
                    op,
                    fe_val(x@[start + j]),
                    fe_val(y@[start + j]),
                ),
        decreases end - i,
    {
        let e = match op {
            BinOp::Add => fe_add_mod(&x[i], &y[i]),
            BinOp::Sub => fe_sub_mod(&x[i], &y[i]),
            BinOp::Mul => mont_mul_kernel(&x[i], &y[i]),
        };
        out.push(e);
        i = i + 1;
    }
    out
}

/// Sums the index range `[start, end)` of an array into one residue.
pub fn sum_range(x: &Vec<FieldElement>, start: usize, end: usize) -> (r: FieldElement)
    requires
        start <= end <= x@.len(),
        arr_ok(x@),
    ensures
        fe_val(r) == seq_sum(vals(x@).subrange(start as int, end as int)) % p_nat(),
        fe_ok(r),
{
    proof {
        lemma_p_bound();
    }
    let mut acc = fe_zero();
    let mut i = start;
    proof {
        assert(vals(x@).subrange(start as int, start as int) =~= Seq::<nat>::empty());
        lemma_small_mod(0, p_nat());
    }
    while i < end
        invariant
            start <= i <= end <= x@.len(),
            arr_ok(x@),
            fe_ok(acc),
            fe_val(acc) == seq_sum(vals(x@).subrange(start as int, i as int)) % p_nat(),
        decreases end - i,
    {
        let ghost pre = vals(x@).subrange(start as int, i as int);
        let ghost post = vals(x@).subrange(start as int, i + 1);
        let ghost v = fe_val(x@[i as int]);
        acc = fe_add_mod(&acc, &x[i]);
        proof {
            assert(post.drop_last() =~= pre);
            assert(post.last() == v);
            lemma_p_bound();
            lemma_small_mod(v, p_nat());
            lemma_add_mod_noop(seq_sum(pre) as int, v as int, p_nat() as int);
        }
        i = i + 1;
    }
    acc
}

/// Accumulates the Montgomery inner product of the index range
/// `[start, end)` of two arrays into one residue: the result represents
/// the range's sum of products with one factor of R^(-1) absorbed.
pub fn ip_range(
    x: &Vec<FieldElement>,
    y: &Vec<FieldElement>,
    start: usize,
    end: usize,
) -> (r: FieldElement)
    requires
        start <= end <= x@.len(),
        x@.len() == y@.len(),
        arr_ok(x@),
        arr_ok(y@),
    ensures
        fe_val(r) == (ip_sum(
            vals(x@).subrange(start as int, end as int),
            vals(y@).subrange(start as int, end as int),
        ) * r_inv_nat()) % p_nat(),
        fe_ok(r),
{
    proof {
        lemma_p_bound();
    }
    let mut acc = fe_zero();
    let mut i = start;
    proof {
        assert(vals(x@).subrange(start as int, start as int) =~= Seq::<nat>::empty());
        lemma_small_mod(0, p_nat());
    }
    while i < end
        invariant
            start <= i <= end <= x@.len(),
            x@.len() == y@.len(),
            arr_ok(x@),
            arr_ok(y@),
            fe_ok(acc),
            fe_val(acc) == (ip_sum(
                vals(x@).subrange(start as int, i as int),
                vals(y@).subrange(start as int, i as int),
            ) * r_inv_nat()) % p_nat(),
        decreases end - i,
    {
        let ghost px = vals(x@).subrange(start as int, i as int);
        let ghost py = vals(y@).subrange(start as int, i as int);
        let ghost vx = fe_val(x@[i as int]);
        let ghost vy = fe_val(y@[i as int]);
        let m = mont_mul_kernel(&x[i], &y[i]);
        acc = fe_add_mod(&acc, &m);
        proof {
            assert(vals(x@).subrange(start as int, i + 1).drop_last() =~= px);
            assert(vals(y@).subrange(start as int, i + 1).drop_last() =~= py);
            lemma_p_bound();
            lemma_add_mod_noop(
                (ip_sum(px, py) * r_inv_nat()) as int,
                (vx * vy * r_inv_nat()) as int,
                p_nat() as int,
            );
            lemma_mul_is_distributive_add_other_way(
                r_inv_nat() as int,
                ip_sum(px, py) as int,
                (vx * vy) as int,
            );
        }
        i = i + 1;
    }
    acc
}

} // verus!
