//! Batched arithmetic over the BN254 scalar field.
//!
//! Arrays of 256-bit field elements are added, subtracted, multiplied
//! (in the Montgomery domain), summed, and combined into inner products,
//! either serially or split into chunks that independent workers process.
//! Every decomposition of the same computation yields bit-identical results.

pub mod constants;
pub mod dispatch;
pub mod element;
pub mod engine;
mod kernel;
pub mod laws;

use vstd::prelude::*;

use crate::constants::{p_nat, r_inv_nat};
use crate::dispatch::{dispatch_binop, dispatch_ip, dispatch_sum, ChunkConfig};
use crate::element::{add_mod, fe_ok, fe_val, mul_mont, sub_mod, FieldElement};
use crate::engine::{arr_ok, ip_range, ip_sum, map_op_range, seq_sum, sum_range, vals, BinOp};

verus! {

/// Element-wise modular addition: `z[i] = (x[i] + y[i]) mod p`.
pub fn add_vec_bn254(x: &Vec<FieldElement>, y: &Vec<FieldElement>, z: &mut Vec<FieldElement>)
    requires
        x@.len() == y@.len(),
        old(z)@.len() == x@.len(),
        arr_ok(x@),
        arr_ok(y@),
    ensures
        final(z)@.len() == x@.len(),
        arr_ok(final(z)@),
        forall|i: int|
            0 <= i < x@.len() ==> fe_val(#[trigger] final(z)@[i]) == add_mod(
                fe_val(x@[i]),
                fe_val(y@[i]),
            ),
{
    let out = map_op_range(BinOp::Add, x, y, 0, x.len());
    *z = out;
}

/// Chunked parallel variant of [`add_vec_bn254`]; bit-identical results.
pub fn add_vec_par_bn254(x: &Vec<FieldElement>, y: &Vec<FieldElement>, z: &mut Vec<FieldElement>)
    requires
        x@.len() == y@.len(),
        old(z)@.len() == x@.len(),
        arr_ok(x@),
        arr_ok(y@),
    ensures
        final(z)@.len() == x@.len(),
        arr_ok(final(z)@),
        forall|i: int|
            0 <= i < x@.len() ==> fe_val(#[trigger] final(z)@[i]) == add_mod(
                fe_val(x@[i]),
                fe_val(y@[i]),
            ),
{
    let cfg = ChunkConfig::default();
    let out = dispatch_binop(BinOp::Add, &cfg, x, y);
    *z = out;
}

/// In-place element-wise modular addition: `x[i] = (x[i] + y[i]) mod p`.
pub fn add_vec_inplace_bn254(x: &mut Vec<FieldElement>, y: &Vec<FieldElement>)
    requires
        old(x)@.len() == y@.len(),
        arr_ok(old(x)@),
        arr_ok(y@),
    ensures
        final(x)@.len() == old(x)@.len(),
        arr_ok(final(x)@),
        forall|i: int|
            0 <= i < old(x)@.len() ==> fe_val(#[trigger] final(x)@[i]) == add_mod(
                fe_val(old(x)@[i]),
                fe_val(y@[i]),
            ),
{
    let n = y.len();
    let out = map_op_range(BinOp::Add, x, y, 0, n);
    *x = out;
}

/// Element-wise modular subtraction: `z[i] = (x[i] - y[i]) mod p`.
pub fn sub_vec_bn254(x: &Vec<FieldElement>, y: &Vec<FieldElement>, z: &mut Vec<FieldElement>)
    requires
        x@.len() == y@.len(),
        old(z)@.len() == x@.len(),
        arr_ok(x@),
        arr_ok(y@),
    ensures
        final(z)@.len() == x@.len(),
        arr_ok(final(z)@),
        forall|i: int|
            0 <= i < x@.len() ==> fe_val(#[trigger] final(z)@[i]) == sub_mod(
                fe_val(x@[i]),
                fe_val(y@[i]),
            ),
{
    let out = map_op_range(BinOp::Sub, x, y, 0, x.len());
    *z = out;
}

/// Chunked parallel variant of [`sub_vec_bn254`]; bit-identical results.
pub fn sub_vec_par_bn254(x: &Vec<FieldElement>, y: &Vec<FieldElement>, z: &mut Vec<FieldElement>)
    requires
        x@.len() == y@.len(),
        old(z)@.len() == x@.len(),
        arr_ok(x@),
        arr_ok(y@),
    ensures
        final(z)@.len() == x@.len(),
        arr_ok(final(z)@),
        forall|i: int|
            0 <= i < x@.len() ==> fe_val(#[trigger] final(z)@[i]) == sub_mod(
                fe_val(x@[i]),
                fe_val(y@[i]),
            ),
{
    let cfg = ChunkConfig::default();
    let out = dispatch_binop(BinOp::Sub, &cfg, x, y);
    *z = out;
}

/// In-place element-wise modular subtraction: `x[i] = (x[i] - y[i]) mod p`.
pub fn sub_vec_inplace_bn254(x: &mut Vec<FieldElement>, y: &Vec<FieldElement>)
    requires
        old(x)@.len() == y@.len(),
        arr_ok(old(x)@),
        arr_ok(y@),
    ensures
        final(x)@.len() == old(x)@.len(),
        arr_ok(final(x)@),
        forall|i: int|
            0 <= i < old(x)@.len() ==> fe_val(#[trigger] final(x)@[i]) == sub_mod(
                fe_val(old(x)@[i]),
                fe_val(y@[i]),
            ),
{
    let n = y.len();
    let out = map_op_range(BinOp::Sub, x, y, 0, n);
    *x = out;
}

/// Modular sum of all elements; the empty array sums to zero.
pub fn sum_vec_bn254(x: &Vec<FieldElement>) -> (r: FieldElement)
    requires
        arr_ok(x@),
    ensures
        fe_val(r) == seq_sum(vals(x@)) % p_nat(),
        fe_ok(r),
{
    let r = sum_range(x, 0, x.len());
    proof {
        assert(vals(x@).subrange(0, x@.len() as int) =~= vals(x@));
    }
    r
}

/// Chunked parallel variant of [`sum_vec_bn254`]; partial sums are
/// combined in chunk order, so the result is bit-identical.
pub fn sum_vec_par_bn254(x: &Vec<FieldElement>) -> (r: FieldElement)
    requires
        arr_ok(x@),
    ensures
        fe_val(r) == seq_sum(vals(x@)) % p_nat(),
        fe_ok(r),
{
    let cfg = ChunkConfig::default();
    dispatch_sum(&cfg, x)
}

/// Element-wise Montgomery multiplication:
/// `z[i] = x[i] * y[i] * R^(-1) mod p`.
pub fn mul_vec_bn254(x: &Vec<FieldElement>, y: &Vec<FieldElement>, z: &mut Vec<FieldElement>)
    requires
        x@.len() == y@.len(),
        old(z)@.len() == x@.len(),
        arr_ok(x@),
        arr_ok(y@),
    ensures
        final(z)@.len() == x@.len(),
        arr_ok(final(z)@),
        forall|i: int|
            0 <= i < x@.len() ==> fe_val(#[trigger] final(z)@[i]) == mul_mont(
                fe_val(x@[i]),
                fe_val(y@[i]),
            ),
{
    let out = map_op_range(BinOp::Mul, x, y, 0, x.len());
    *z = out;
}

/// Chunked parallel variant of [`mul_vec_bn254`]; bit-identical results.
pub fn mul_vec_par_bn254(x: &Vec<FieldElement>, y: &Vec<FieldElement>, z: &mut Vec<FieldElement>)
    requires
        x@.len() == y@.len(),
        old(z)@.len() == x@.len(),
        arr_ok(x@),
        arr_ok(y@),
    ensures
        final(z)@.len() == x@.len(),
        arr_ok(final(z)@),
        forall|i: int|
            0 <= i < x@.len() ==> fe_val(#[trigger] final(z)@[i]) == mul_mont(
                fe_val(x@[i]),
                fe_val(y@[i]),
            ),
{
    let cfg = ChunkConfig::default();
    let out = dispatch_binop(BinOp::Mul, &cfg, x, y);
    *z = out;
}

/// In-place element-wise Montgomery multiplication:
/// `x[i] = x[i] * y[i] * R^(-1) mod p`.
pub fn mul_vec_inplace_bn254(x: &mut Vec<FieldElement>, y: &Vec<FieldElement>)
    requires
        old(x)@.len() == y@.len(),
        arr_ok(old(x)@),
        arr_ok(y@),
    ensures
        final(x)@.len() == old(x)@.len(),
        arr_ok(final(x)@),
        forall|i: int|
            0 <= i < old(x)@.len() ==> fe_val(#[trigger] final(x)@[i]) == mul_mont(
                fe_val(old(x)@[i]),
                fe_val(y@[i]),
            ),
{
    let n = y.len();
    let out = map_op_range(BinOp::Mul, x, y, 0, n);
    *x = out;
}

/// Montgomery inner product: the returned residue represents
/// `(sum of x[i] * y[i]) * R^(-1) mod p`, accumulated in-domain.
pub fn inner_product_bn254(x: &Vec<FieldElement>, y: &Vec<FieldElement>) -> (r: FieldElement)
    requires
        x@.len() == y@.len(),
        arr_ok(x@),
        arr_ok(y@),
    ensures
        fe_val(r) == (ip_sum(vals(x@), vals(y@)) * r_inv_nat()) % p_nat(),
        fe_ok(r),
{
    let r = ip_range(x, y, 0, x.len());
    proof {
        assert(vals(x@).subrange(0, x@.len() as int) =~= vals(x@));
        assert(vals(y@).subrange(0, y@.len() as int) =~= vals(y@));
    }
    r
}

/// Chunked parallel variant of [`inner_product_bn254`]; partial products
/// are combined in chunk order, so the result is bit-identical.
pub fn inner_product_par_bn254(x: &Vec<FieldElement>, y: &Vec<FieldElement>) -> (r: FieldElement)
    requires
        x@.len() == y@.len(),
        arr_ok(x@),
        arr_ok(y@),
    ensures
        fe_val(r) == (ip_sum(vals(x@), vals(y@)) * r_inv_nat()) % p_nat(),
        fe_ok(r),
{
    let cfg = ChunkConfig::default();
    dispatch_ip(&cfg, x, y)
}

} // verus!
