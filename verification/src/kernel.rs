//! The opaque multiplication kernel, supplied by an outside field library.
//!
//! Addition, subtraction and summation are computed by this crate's own
//! verified limb arithmetic; the Montgomery multiplication step is the one
//! capability delegated to `ark_ff`'s Montgomery backend for the BN254
//! scalar field, behind the single trusted wrapper below.

use vstd::prelude::*;

use crate::element::{fe_ok, fe_val, mul_mont, FieldElement};

verus! {

/// Relies on `ark_ff`'s Montgomery multiplication (`Fp::mul` over
/// `MontBackend<FrConfig, 4>`): given two reduced representatives `a` and
/// `b`, it returns the reduced representative of `a * b * R^(-1) mod p`,
/// where `R = 2^256` and `p` is the BN254 scalar-field modulus.
/// `Fp::new_unchecked` wraps the raw little-endian limbs unchanged, and the
/// public `BigInt` field of the product exposes the result's limbs.
#[verifier::external_body]
pub(crate) fn mont_mul_kernel(x: &FieldElement, y: &FieldElement) -> (r: FieldElement)
    requires
        fe_ok(*x),
        fe_ok(*y),
    ensures
        fe_val(r) == mul_mont(fe_val(*x), fe_val(*y)),
        fe_ok(r),
{
    let a = ark_bn254::Fr::new_unchecked(ark_ff::BigInt([x.l0, x.l1, x.l2, x.l3]));
    let b = ark_bn254::Fr::new_unchecked(ark_ff::BigInt([y.l0, y.l1, y.l2, y.l3]));
    let c = a * b;
    let limbs = (c.0).0;
    FieldElement { l0: limbs[0], l1: limbs[1], l2: limbs[2], l3: limbs[3] }
}

} // verus!
