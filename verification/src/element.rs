//! A 256-bit field element and its reduced modular arithmetic.
//!
//! An element is four 64-bit little-endian limbs whose combined value is
//! strictly below the scalar-field modulus.  Addition and subtraction are
//! computed here as plain carry/borrow limb chains followed by one
//! conditional reduction; both are verified against the mathematical
//! residue they produce.

use vstd::arithmetic::div_mod::{
    lemma_fundamental_div_mod, lemma_fundamental_div_mod_converse,
    lemma_fundamental_div_mod_converse_mod, lemma_mod_bound, lemma_small_mod,
};
use vstd::prelude::*;

use crate::constants::{
    lemma_p_bound, lemma_p_limbs, p_nat, r_nat, FR_MODULUS_0, FR_MODULUS_1, FR_MODULUS_2,
    FR_MODULUS_3,
};

verus! {

/// One scalar-field element: four 64-bit limbs, least significant first.
#[derive(Clone, Copy, Debug, PartialEq, Eq, Structural)]
pub struct FieldElement {
    /// Least-significant limb.
    pub l0: u64,
    /// Second limb.
    pub l1: u64,
    /// Third limb.
    pub l2: u64,
    /// Most-significant limb.
    pub l3: u64,
}

/// The integer value of an element's four limbs.
pub open spec fn fe_val(e: FieldElement) -> nat {
    (e.l0 + e.l1 * 0x10000000000000000 + e.l2 * 0x100000000000000000000000000000000
        + e.l3 * 0x1000000000000000000000000000000000000000000000000) as nat
}

/// A reduced element: its value lies in `[0, modulus)`.
pub open spec fn fe_ok(e: FieldElement) -> bool {
    fe_val(e) < p_nat()
}

/// Modular addition of two residues.
pub open spec fn add_mod(a: nat, b: nat) -> nat {
    (a + b) % p_nat()
}

/// Modular subtraction of two residues below the modulus.
pub open spec fn sub_mod(a: nat, b: nat) -> nat {
    ((a + p_nat() - b) % p_nat() as int) as nat
}

/// Montgomery-domain multiplication of two residues: the product absorbs
/// one factor of R^(-1), keeping Montgomery representatives in-domain.
pub open spec fn mul_mont(a: nat, b: nat) -> nat {
    (a * b * crate::constants::r_inv_nat()) % p_nat()
}

/// The four-limb representation of a value below 2^256 is unique: equal
/// values are equal limb for limb, so results pinned by their value are
/// pinned bit for bit.
pub proof fn lemma_fe_val_injective(a: FieldElement, b: FieldElement)
    requires
        fe_val(a) == fe_val(b),
    ensures
        a == b,
{
    let base = 0x10000000000000000int;
    let qa1 = a.l1 + base * a.l2 + base * base * a.l3;
    let qb1 = b.l1 + base * b.l2 + base * base * b.l3;
    lemma_fundamental_div_mod_converse(fe_val(a) as int, base, qa1, a.l0 as int);
    lemma_fundamental_div_mod_converse(fe_val(b) as int, base, qb1, b.l0 as int);
    let qa2 = a.l2 + base * a.l3;
    let qb2 = b.l2 + base * b.l3;
    lemma_fundamental_div_mod_converse(qa1, base, qa2, a.l1 as int);
    lemma_fundamental_div_mod_converse(qb1, base, qb2, b.l1 as int);
    lemma_fundamental_div_mod_converse(qa2, base, a.l3 as int, a.l2 as int);
    lemma_fundamental_div_mod_converse(qb2, base, b.l3 as int, b.l2 as int);
}

/// One limb of a carry chain: `a + b + carry` split into low and high parts.
fn add_limb(a: u64, b: u64, carry: u64) -> (r: (u64, u64))
    requires
        carry <= 1,
    ensures
        r.0 + r.1 * 0x10000000000000000 == a + b + carry,
        r.1 <= 1,
{
    let s: u128 = a as u128 + b as u128 + carry as u128;
    proof {
        lemma_fundamental_div_mod(s as int, 0x10000000000000000);
        lemma_mod_bound(s as int, 0x10000000000000000);
    }
    let lo: u64 = (s % 0x10000000000000000u128) as u64;
    let hi: u64 = (s / 0x10000000000000000u128) as u64;
    (lo, hi)
}

/// One limb of a borrow chain: `a - b - borrow` split into a limb and an
/// outgoing borrow, so that `a - b - borrow == limb - borrow_out * 2^64`.
fn sub_limb(a: u64, b: u64, borrow: u64) -> (r: (u64, u64))
    requires
        borrow <= 1,
    ensures
        a - b - borrow == r.0 - r.1 * 0x10000000000000000,
        r.1 <= 1,
{
    let d: u128 = 0x10000000000000000u128 + a as u128 - b as u128 - borrow as u128;
    proof {
        lemma_fundamental_div_mod(d as int, 0x10000000000000000);
        lemma_mod_bound(d as int, 0x10000000000000000);
    }
    let lo: u64 = (d % 0x10000000000000000u128) as u64;
    let hi: u64 = (d / 0x10000000000000000u128) as u64;
    (lo, 1 - hi)
}

/// Four-limb addition: the result and carry satisfy
/// `value(r) + carry * 2^256 == value(x) + value(y)`.
fn fe_add_raw(x: &FieldElement, y: &FieldElement) -> (r: (FieldElement, u64))
    ensures
        fe_val(r.0) + r.1 * r_nat() == fe_val(*x) + fe_val(*y),
        r.1 <= 1,
{
    let (r0, c0) = add_limb(x.l0, y.l0, 0);
    let (r1, c1) = add_limb(x.l1, y.l1, c0);
    let (r2, c2) = add_limb(x.l2, y.l2, c1);
    let (r3, c3) = add_limb(x.l3, y.l3, c2);
    (FieldElement { l0: r0, l1: r1, l2: r2, l3: r3 }, c3)
}

/// Four-limb subtraction: the result and borrow satisfy
/// `value(x) - value(y) == value(r) - borrow * 2^256`.
fn fe_sub_raw(x: &FieldElement, y: &FieldElement) -> (r: (FieldElement, u64))
    ensures
        fe_val(*x) - fe_val(*y) == fe_val(r.0) - r.1 * r_nat(),
        r.1 <= 1,
{
    let (r0, b0) = sub_limb(x.l0, y.l0, 0);
    let (r1, b1) = sub_limb(x.l1, y.l1, b0);
    let (r2, b2) = sub_limb(x.l2, y.l2, b1);
    let (r3, b3) = sub_limb(x.l3, y.l3, b2);
    (FieldElement { l0: r0, l1: r1, l2: r2, l3: r3 }, b3)
}

/// The scalar-field modulus as an element-shaped limb tuple.
fn modulus_limbs() -> (r: FieldElement)
    ensures
        fe_val(r) == p_nat(),
{
    proof {
        lemma_p_limbs();
    }
    FieldElement { l0: FR_MODULUS_0, l1: FR_MODULUS_1, l2: FR_MODULUS_2, l3: FR_MODULUS_3 }
}

/// The additive identity.
pub fn fe_zero() -> (r: FieldElement)
    ensures
        fe_val(r) == 0,
        fe_ok(r),
{
    proof {
        lemma_p_bound();
    }
    FieldElement { l0: 0, l1: 0, l2: 0, l3: 0 }
}

/// The Montgomery-domain representative of one.
pub fn fe_one_mont() -> (r: FieldElement)
    ensures
        fe_val(r) == crate::constants::one_mont_nat(),
        fe_ok(r),
{
    FieldElement {
        l0: 0xac96341c4ffffffb,
        l1: 0x36fc76959f60cd29,
        l2: 0x666ea36f7879462e,
        l3: 0xe0a77c19a07df2f,
    }
}

/// Reduced modular addition of two reduced elements.
pub fn fe_add_mod(x: &FieldElement, y: &FieldElement) -> (r: FieldElement)
    requires
        fe_ok(*x),
        fe_ok(*y),
    ensures
        fe_val(r) == add_mod(fe_val(*x), fe_val(*y)),
        fe_ok(r),
{
    proof {
        lemma_p_bound();
    }
    let (t, c) = fe_add_raw(x, y);
    proof {
        // The sum of two reduced values is below 2p < 2^256, so no carry.
        assert(c == 0);
    }
    let p = modulus_limbs();
    let (u, b) = fe_sub_raw(&t, &p);
    if b == 1 {
        proof {
            lemma_small_mod(fe_val(t), p_nat());
        }
        t
    } else {
        proof {
            assert(fe_val(u) == fe_val(t) - p_nat());
            assert((fe_val(t) as int) % (p_nat() as int) == fe_val(u) as int) by {
                lemma_fundamental_div_mod_converse_mod(
                    fe_val(t) as int,
                    p_nat() as int,
                    1,
                    fe_val(u) as int,
                );
            }
        }
        u
    }
}

/// Reduced modular subtraction of two reduced elements.
pub fn fe_sub_mod(x: &FieldElement, y: &FieldElement) -> (r: FieldElement)
    requires
        fe_ok(*x),
        fe_ok(*y),
    ensures
        fe_val(r) == sub_mod(fe_val(*x), fe_val(*y)),
        fe_ok(r),
{
    proof {
        lemma_p_bound();
    }
    let (d, b) = fe_sub_raw(x, y);
    if b == 0 {
        proof {
            assert(fe_val(d) == fe_val(*x) - fe_val(*y));
            assert((fe_val(*x) + p_nat() - fe_val(*y)) % (p_nat() as int) == fe_val(d) as int) by {
                lemma_fundamental_div_mod_converse_mod(
                    fe_val(*x) + p_nat() - fe_val(*y),
                    p_nat() as int,
                    1,
                    fe_val(d) as int,
                );
            }
        }
        d
    } else {
        let p = modulus_limbs();
        let (r, c) = fe_add_raw(&d, &p);
        proof {
            // d holds x - y + 2^256, so adding p overflows 2^256 exactly once.
            assert(c == 1);
            assert(fe_val(r) == fe_val(*x) + p_nat() - fe_val(*y));
            lemma_small_mod(fe_val(r), p_nat());
        }
        r
    }
}

/// Builds a reduced element from four little-endian limbs, rejecting
/// limb tuples whose value reaches the modulus.
pub fn fe_from_limbs(l0: u64, l1: u64, l2: u64, l3: u64) -> (r: Option<FieldElement>)
    ensures
        match r {
            Some(e) => {
                &&& fe_ok(e)
                &&& e.l0 == l0
                &&& e.l1 == l1
                &&& e.l2 == l2
                &&& e.l3 == l3
            },
            None => fe_val(FieldElement { l0, l1, l2, l3 }) >= p_nat(),
        },
{
    let e = FieldElement { l0, l1, l2, l3 };
    let p = modulus_limbs();
    let (_, b) = fe_sub_raw(&e, &p);
    if b == 1 {
        Some(e)
    } else {
        None
    }
}

} // verus!
