//! Laws of the batched operations.
//!
//! These public proof functions state, over the same spec functions that
//! the engine's contracts use, the properties the library promises of
//! every input: splitting an array into contiguous covering chunks and
//! combining the partial results in chunk order changes nothing, adding
//! then subtracting the same operand is the identity, and multiplying by
//! the Montgomery representative of one returns the operand.

use vstd::arithmetic::div_mod::{
    lemma_add_mod_noop, lemma_fundamental_div_mod, lemma_mod_multiples_vanish,
    lemma_mul_mod_noop_right, lemma_small_mod,
};
use vstd::arithmetic::mul::{
    lemma_mul_is_associative, lemma_mul_is_commutative, lemma_mul_is_distributive_add_other_way,
};
use vstd::prelude::*;

use crate::constants::{lemma_p_bound, lemma_r_inv, one_mont_nat, p_nat, r_inv_nat, r_nat};
use crate::element::{add_mod, fe_val, lemma_fe_val_injective, mul_mont, sub_mod, FieldElement};
use crate::engine::{bin_val, ip_sum, seq_sum, BinOp};

verus! {

/// The concatenation of a sequence of chunks, in chunk order.
pub open spec fn flatten_chunks(cs: Seq<Seq<nat>>) -> Seq<nat>
    decreases cs.len(),
{
    if cs.len() == 0 {
        Seq::empty()
    } else {
        flatten_chunks(cs.drop_last()) + cs.last()
    }
}

/// Reduced partial sums of the chunks, combined with modular addition in
/// chunk order, starting from the additive identity.
pub open spec fn combine_chunk_sums(cs: Seq<Seq<nat>>) -> nat
    decreases cs.len(),
{
    if cs.len() == 0 {
        0
    } else {
        (combine_chunk_sums(cs.drop_last()) + seq_sum(cs.last()) % p_nat()) % p_nat()
    }
}

/// Per-chunk Montgomery inner products, combined with modular addition in
/// chunk order, starting from the additive identity.
pub open spec fn combine_chunk_ips(cxs: Seq<Seq<nat>>, cys: Seq<Seq<nat>>) -> nat
    decreases cxs.len(),
{
    if cxs.len() == 0 || cys.len() == 0 {
        0
    } else {
        (combine_chunk_ips(cxs.drop_last(), cys.drop_last()) + (ip_sum(cxs.last(), cys.last())
            * r_inv_nat()) % p_nat()) % p_nat()
    }
}

/// A plain sum splits over concatenation.
pub proof fn lemma_seq_sum_concat(s: Seq<nat>, t: Seq<nat>)
    ensures
        seq_sum(s + t) == seq_sum(s) + seq_sum(t),
    decreases t.len(),
{
    if t.len() == 0 {
        assert(s + t =~= s);
    } else {
        lemma_seq_sum_concat(s, t.drop_last());
        assert((s + t).drop_last() =~= s + t.drop_last());
        assert((s + t).last() == t.last());
    }
}

/// A plain inner product splits over concatenation of equally long halves.
pub proof fn lemma_ip_sum_concat(x1: Seq<nat>, y1: Seq<nat>, x2: Seq<nat>, y2: Seq<nat>)
    requires
        x1.len() == y1.len(),
        x2.len() == y2.len(),
    ensures
        ip_sum(x1 + x2, y1 + y2) == ip_sum(x1, y1) + ip_sum(x2, y2),
    decreases x2.len(),
{
    if x2.len() == 0 {
        assert(x1 + x2 =~= x1);
        assert(y1 + y2 =~= y1);
    } else {
        lemma_ip_sum_concat(x1, y1, x2.drop_last(), y2.drop_last());
        assert((x1 + x2).drop_last() =~= x1 + x2.drop_last());
        assert((y1 + y2).drop_last() =~= y1 + y2.drop_last());
        assert((x1 + x2).last() == x2.last());
        assert((y1 + y2).last() == y2.last());
    }
}

/// Partitioning an array into any contiguous, covering, non-overlapping
/// chunks and combining the reduced partial sums in chunk order yields the
/// reduced sum of the whole array.
pub proof fn lemma_chunked_sum(cs: Seq<Seq<nat>>)
    ensures
        combine_chunk_sums(cs) == seq_sum(flatten_chunks(cs)) % p_nat(),
    decreases cs.len(),
{
    lemma_p_bound();
    if cs.len() == 0 {
        lemma_small_mod(0, p_nat());
    } else {
        lemma_chunked_sum(cs.drop_last());
        let s = seq_sum(flatten_chunks(cs.drop_last()));
        let l = seq_sum(cs.last());
        lemma_seq_sum_concat(flatten_chunks(cs.drop_last()), cs.last());
        lemma_add_mod_noop(s as int, l as int, p_nat() as int);
    }
}

/// Partitioning two equally long arrays into matching contiguous chunks
/// and combining the per-chunk Montgomery inner products in chunk order
/// yields the Montgomery inner product of the whole arrays.
pub proof fn lemma_chunked_inner_product(cxs: Seq<Seq<nat>>, cys: Seq<Seq<nat>>)
    requires
        cxs.len() == cys.len(),
        forall|c: int| 0 <= c < cxs.len() ==> (#[trigger] cxs[c]).len() == cys[c].len(),
    ensures
        combine_chunk_ips(cxs, cys) == (ip_sum(flatten_chunks(cxs), flatten_chunks(cys))
            * r_inv_nat()) % p_nat(),
        flatten_chunks(cxs).len() == flatten_chunks(cys).len(),
    decreases cxs.len(),
{
    lemma_p_bound();
    if cxs.len() == 0 {
        lemma_small_mod(0, p_nat());
    } else {
        assert(forall|c: int|
            0 <= c < cxs.drop_last().len() ==> (#[trigger] cxs.drop_last()[c]).len()
                == cys.drop_last()[c].len());
        lemma_chunked_inner_product(cxs.drop_last(), cys.drop_last());
        let fx = flatten_chunks(cxs.drop_last());
        let fy = flatten_chunks(cys.drop_last());
        let s = ip_sum(fx, fy);
        let l = ip_sum(cxs.last(), cys.last());
        lemma_ip_sum_concat(fx, fy, cxs.last(), cys.last());
        lemma_add_mod_noop((s * r_inv_nat()) as int, (l * r_inv_nat()) as int, p_nat() as int);
        lemma_mul_is_distributive_add_other_way(r_inv_nat() as int, s as int, l as int);
    }
}

/// Single-threaded and chunked/parallel execution of one element-wise
/// operation are observationally identical: any two output arrays that
/// meet the operation's contract on the same inputs — as the serial and
/// the dispatched variants both do — are equal bit for bit.
pub proof fn lemma_parallel_parity_elementwise(
    op: BinOp,
    x: Seq<FieldElement>,
    y: Seq<FieldElement>,
    z1: Seq<FieldElement>,
    z2: Seq<FieldElement>,
)
    requires
        z1.len() == x.len(),
        z2.len() == x.len(),
        forall|i: int|
            0 <= i < x.len() ==> fe_val(#[trigger] z1[i]) == bin_val(
                op,
                fe_val(x[i]),
                fe_val(y[i]),
            ),
        forall|i: int|
            0 <= i < x.len() ==> fe_val(#[trigger] z2[i]) == bin_val(
                op,
                fe_val(x[i]),
                fe_val(y[i]),
            ),
    ensures
        z1 == z2,
{
    assert forall|i: int| 0 <= i < z1.len() implies z1[i] == z2[i] by {
        lemma_fe_val_injective(z1[i], z2[i]);
    }
    assert(z1 =~= z2);
}

/// Subtracting an operand undoes adding it: for reduced residues `a` and
/// `b`, `sub(add(a, b), b) == a`.
pub proof fn lemma_sub_add_inverse(a: nat, b: nat)
    requires
        a < p_nat(),
        b < p_nat(),
    ensures
        sub_mod(add_mod(a, b), b) == a,
{
    lemma_p_bound();
    let p = p_nat() as int;
    let s = add_mod(a, b) as int;
    let q = (a + b) as int / p;
    lemma_fundamental_div_mod((a + b) as int, p);
    assert(s + p - b == p * (1 - q) + a);
    lemma_mod_multiples_vanish(1 - q, a as int, p);
    lemma_small_mod(a, p_nat());
}

/// Multiplying by the Montgomery-domain representative of one returns the
/// operand unchanged.
pub proof fn lemma_mont_identity(a: nat)
    requires
        a < p_nat(),
    ensures
        mul_mont(a, one_mont_nat()) == a,
{
    lemma_p_bound();
    let p = p_nat() as int;
    let r = r_nat() as int;
    let ri = r_inv_nat() as int;
    let one_m = one_mont_nat() as int;
    assert(one_m == r % p);
    // Reassociate so the reduced factor R mod p stands alone, lift the
    // reduction, and cancel R against its inverse.
    assert(a * one_mont_nat() * r_inv_nat() == (a * ri) * one_m) by {
        lemma_mul_is_associative(a as int, one_m, ri);
        lemma_mul_is_commutative(one_m, ri);
        lemma_mul_is_associative(a as int, ri, one_m);
    }
    lemma_mul_mod_noop_right(a * ri, r, p);
    assert(((a * ri) * r) % p == (a * (ri * r)) % p) by {
        lemma_mul_is_associative(a as int, ri, r);
    }
    lemma_mul_mod_noop_right(a as int, ri * r, p);
    assert((ri * r) % p == 1) by {
        lemma_mul_is_commutative(ri, r);
        lemma_r_inv();
    }
    assert((a as int * 1) % p == a as int % p);
    lemma_small_mod(a, p_nat());
}

} // verus!
