//! Modulus constant table for the two supported BN254 fields.
//!
//! Each table holds the four 64-bit limbs of the modulus (little-endian),
//! the negated inverse of the modulus modulo 2^64 (used by Montgomery
//! reduction), and the Barrett auxiliary constant floor(2^288 / modulus).
//! The tables are pure data, computed once and shared read-only.

use vstd::prelude::*;

verus! {

/// Least-significant limb of the BN254 scalar-field modulus.
pub const FR_MODULUS_0: u64 = 0x43e1f593f0000001;
/// Second limb of the BN254 scalar-field modulus.
pub const FR_MODULUS_1: u64 = 0x2833e84879b97091;
/// Third limb of the BN254 scalar-field modulus.
pub const FR_MODULUS_2: u64 = 0xb85045b68181585d;
/// Most-significant limb of the BN254 scalar-field modulus.
pub const FR_MODULUS_3: u64 = 0x30644e72e131a029;
/// Negated inverse of the scalar-field modulus modulo 2^64.
pub const FR_NEG_INV: u64 = 0xc2e1f593efffffff;
/// Barrett constant floor(2^288 / modulus) for the scalar field.
pub const FR_MU: u64 = 0x54a474626;

/// Least-significant limb of the BN254 base-field modulus.
pub const FP_MODULUS_0: u64 = 0x3c208c16d87cfd47;
/// Second limb of the BN254 base-field modulus.
pub const FP_MODULUS_1: u64 = 0x97816a916871ca8d;
/// Third limb of the BN254 base-field modulus.
pub const FP_MODULUS_2: u64 = 0xb85045b68181585d;
/// Most-significant limb of the BN254 base-field modulus.
pub const FP_MODULUS_3: u64 = 0x30644e72e131a029;
/// Negated inverse of the base-field modulus modulo 2^64.
pub const FP_NEG_INV: u64 = 0x87d20782e4866389;
/// Barrett constant floor(2^288 / modulus) for the base field.
pub const FP_MU: u64 = 0x54a474626;

/// The BN254 scalar-field modulus as a natural number.
pub open spec fn p_nat() -> nat {
    0x30644e72e131a029b85045b68181585d2833e84879b9709143e1f593f0000001nat
}

/// The BN254 base-field modulus as a natural number.
pub open spec fn fp_nat() -> nat {
    0x30644e72e131a029b85045b68181585d97816a916871ca8d3c208c16d87cfd47nat
}

/// The Montgomery radix R = 2^256.
pub open spec fn r_nat() -> nat {
    0x10000000000000000000000000000000000000000000000000000000000000000nat
}

/// The inverse of the Montgomery radix modulo the scalar-field modulus.
pub open spec fn r_inv_nat() -> nat {
    0x15ebf95182c5551cc8260de4aeb85d5d090ef5a9e111ec87dc5ba0056db1194enat
}

/// The Montgomery-domain representative of one: R mod p.
pub open spec fn one_mont_nat() -> nat {
    r_nat() % p_nat()
}

/// R is invertible modulo the modulus, with `r_inv_nat` as its inverse.
pub proof fn lemma_r_inv()
    ensures
        (r_nat() * r_inv_nat()) % p_nat() == 1,
{
}

/// The modulus fits 254 bits: twice the modulus is still below 2^256.
pub proof fn lemma_p_bound()
    ensures
        0 < p_nat(),
        2 * p_nat() < r_nat(),
{
}

/// The modulus equals its four little-endian limbs.
pub proof fn lemma_p_limbs()
    ensures
        p_nat() == FR_MODULUS_0 + FR_MODULUS_1 * 0x10000000000000000
            + FR_MODULUS_2 * 0x100000000000000000000000000000000
            + FR_MODULUS_3 * 0x1000000000000000000000000000000000000000000000000,
{
}

/// Immutable per-field table of modulus-derived kernel constants.
pub struct ModulusConstants {
    /// Little-endian limbs of the modulus.
    pub modulus_0: u64,
    /// Second limb of the modulus.
    pub modulus_1: u64,
    /// Third limb of the modulus.
    pub modulus_2: u64,
    /// Most-significant limb of the modulus.
    pub modulus_3: u64,
    /// Negated inverse of the modulus modulo 2^64.
    pub neg_inv: u64,
    /// Barrett constant floor(2^288 / modulus).
    pub barrett_mu: u64,
}

impl ModulusConstants {
    /// The modulus that this table describes, as a natural number.
    pub open spec fn modulus_nat(self) -> nat {
        (self.modulus_0 + self.modulus_1 * 0x10000000000000000
            + self.modulus_2 * 0x100000000000000000000000000000000
            + self.modulus_3 * 0x1000000000000000000000000000000000000000000000000) as nat
    }

    /// Constant table for the BN254 scalar field.
    pub fn bn254_fr() -> (r: ModulusConstants)
        ensures
            r.modulus_nat() == p_nat(),
            r.neg_inv == FR_NEG_INV,
            r.barrett_mu == FR_MU,
    {
        ModulusConstants {
            modulus_0: FR_MODULUS_0,
            modulus_1: FR_MODULUS_1,
            modulus_2: FR_MODULUS_2,
            modulus_3: FR_MODULUS_3,
            neg_inv: FR_NEG_INV,
            barrett_mu: FR_MU,
        }
    }

    /// Constant table for the BN254 base field.
    pub fn bn254_fp() -> (r: ModulusConstants)
        ensures
            r.modulus_nat() == fp_nat(),
            r.neg_inv == FP_NEG_INV,
            r.barrett_mu == FP_MU,
    {
        ModulusConstants {
            modulus_0: FP_MODULUS_0,
            modulus_1: FP_MODULUS_1,
            modulus_2: FP_MODULUS_2,
            modulus_3: FP_MODULUS_3,
            neg_inv: FP_NEG_INV,
            barrett_mu: FP_MU,
        }
    }
}

} // verus!
