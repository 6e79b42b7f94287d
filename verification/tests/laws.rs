//! Concrete scenarios for the library's laws, boundaries and formulas.

use vectorized_fields::constants::{
    ModulusConstants, FR_MODULUS_0, FR_MODULUS_1, FR_MODULUS_2, FR_MODULUS_3, FR_MU, FR_NEG_INV,
};
use vectorized_fields::dispatch::{dispatch_binop, dispatch_sum, ChunkConfig};
use vectorized_fields::engine::BinOp;
use vectorized_fields::element::{fe_add_mod, fe_from_limbs, fe_one_mont, fe_zero, FieldElement};
use vectorized_fields::{
    add_vec_bn254, add_vec_inplace_bn254, add_vec_par_bn254, inner_product_bn254,
    inner_product_par_bn254, mul_vec_bn254, mul_vec_inplace_bn254, mul_vec_par_bn254,
    sub_vec_bn254, sub_vec_inplace_bn254, sub_vec_par_bn254, sum_vec_bn254, sum_vec_par_bn254,
};

fn fe(v: u64) -> FieldElement {
    fe_from_limbs(v, 0, 0, 0).unwrap()
}

fn small_vec(values: &[u64]) -> Vec<FieldElement> {
    values.iter().map(|&v| fe(v)).collect()
}

#[test]
fn sub_after_add_restores_operand() {
    let x = small_vec(&[1, 2, 3, 0xffffffffffffffff]);
    let y = small_vec(&[4, 0, 6, 0xfffffffffffffffe]);
    let mut sum: Vec<FieldElement> = vec![fe_zero(); 4];
    let mut back: Vec<FieldElement> = vec![fe_zero(); 4];
    add_vec_bn254(&x, &y, &mut sum);
    sub_vec_bn254(&sum, &y, &mut back);
    assert_eq!(back, x);
}

#[test]
fn mul_by_montgomery_one_is_identity() {
    let x = vec![
        fe(1),
        fe(123456789),
        fe_from_limbs(1, 2, 3, 4).unwrap(),
        fe_one_mont(),
    ];
    let one = vec![fe_one_mont(); 4];
    let mut z: Vec<FieldElement> = vec![fe_zero(); 4];
    mul_vec_bn254(&x, &one, &mut z);
    assert_eq!(z, x);
}

#[test]
fn chunked_sum_matches_whole() {
    let x = small_vec(&[1, 2, 3, 4, 5, 6, 7, 8, 9, 10]);
    let whole = sum_vec_bn254(&x);
    let first: Vec<FieldElement> = x[..4].to_vec();
    let second: Vec<FieldElement> = x[4..].to_vec();
    let combined = fe_add_mod(&sum_vec_bn254(&first), &sum_vec_bn254(&second));
    assert_eq!(whole, combined);
    assert_eq!(whole, fe(55));
}

#[test]
fn chunked_inner_product_matches_whole() {
    let x = small_vec(&[1, 2, 3, 4, 5, 6]);
    let y = small_vec(&[7, 8, 9, 10, 11, 12]);
    let whole = inner_product_bn254(&x, &y);
    let left = inner_product_bn254(&x[..2].to_vec(), &y[..2].to_vec());
    let right = inner_product_bn254(&x[2..].to_vec(), &y[2..].to_vec());
    assert_eq!(whole, fe_add_mod(&left, &right));
}

#[test]
fn empty_arrays_give_empty_or_identity() {
    let empty: Vec<FieldElement> = Vec::new();
    let mut z: Vec<FieldElement> = Vec::new();
    add_vec_bn254(&empty, &empty, &mut z);
    assert!(z.is_empty());
    mul_vec_par_bn254(&empty, &empty, &mut z);
    assert!(z.is_empty());
    assert_eq!(sum_vec_bn254(&empty), fe_zero());
    assert_eq!(sum_vec_par_bn254(&empty), fe_zero());
    assert_eq!(inner_product_bn254(&empty, &empty), fe_zero());
    assert_eq!(inner_product_par_bn254(&empty, &empty), fe_zero());
}

#[test]
fn single_element_parity() {
    let x = small_vec(&[42]);
    let y = small_vec(&[17]);
    let mut serial: Vec<FieldElement> = vec![fe_zero(); 1];
    let mut par: Vec<FieldElement> = vec![fe_zero(); 1];

    add_vec_bn254(&x, &y, &mut serial);
    add_vec_par_bn254(&x, &y, &mut par);
    assert_eq!(serial, par);
    assert_eq!(serial[0], fe(59));

    sub_vec_bn254(&x, &y, &mut serial);
    sub_vec_par_bn254(&x, &y, &mut par);
    assert_eq!(serial, par);
    assert_eq!(serial[0], fe(25));

    mul_vec_bn254(&x, &y, &mut serial);
    mul_vec_par_bn254(&x, &y, &mut par);
    assert_eq!(serial, par);

    assert_eq!(sum_vec_bn254(&x), sum_vec_par_bn254(&x));
    assert_eq!(inner_product_bn254(&x, &y), inner_product_par_bn254(&x, &y));
}

#[test]
fn parallel_sum_of_many_ones() {
    let x = vec![fe(1); 300];
    assert_eq!(sum_vec_par_bn254(&x), fe(300));
    assert_eq!(sum_vec_bn254(&x), fe(300));
}

#[test]
fn add_wraps_at_modulus() {
    let p_minus_one = fe_from_limbs(
        0x43e1f593f0000000,
        FR_MODULUS_1,
        FR_MODULUS_2,
        FR_MODULUS_3,
    )
    .unwrap();
    let x = vec![p_minus_one];
    let y = vec![fe(1)];
    let mut z: Vec<FieldElement> = vec![fe_zero(); 1];
    add_vec_bn254(&x, &y, &mut z);
    assert_eq!(z[0], fe_zero());
}

#[test]
fn sub_wraps_below_zero() {
    let p_minus_one = fe_from_limbs(
        0x43e1f593f0000000,
        FR_MODULUS_1,
        FR_MODULUS_2,
        FR_MODULUS_3,
    )
    .unwrap();
    let x = vec![fe_zero()];
    let y = vec![fe(1)];
    let mut z: Vec<FieldElement> = vec![fe_zero(); 1];
    sub_vec_bn254(&x, &y, &mut z);
    assert_eq!(z[0], p_minus_one);
}

#[test]
fn mont_mul_exact_formula() {
    // 1 * 1 in the Montgomery kernel yields R^(-1) mod p: the kernel
    // really absorbs one factor of R^(-1) rather than echoing an operand.
    let r_inv = fe_from_limbs(
        0xdc5ba0056db1194e,
        0x090ef5a9e111ec87,
        0xc8260de4aeb85d5d,
        0x15ebf95182c5551c,
    )
    .unwrap();
    let x = vec![fe(1)];
    let mut z: Vec<FieldElement> = vec![fe_zero(); 1];
    mul_vec_bn254(&x, &x, &mut z);
    assert_eq!(z[0], r_inv);
}

#[test]
fn inner_product_exact_formula() {
    // (1*1 + 1*1) * R^(-1) mod p == 2 * R^(-1) mod p.
    let two_r_inv = fe_from_limbs(
        0xb8b7400adb62329c,
        0x121deb53c223d90f,
        0x904c1bc95d70baba,
        0x2bd7f2a3058aaa39,
    )
    .unwrap();
    let x = small_vec(&[1, 1]);
    assert_eq!(inner_product_bn254(&x, &x), two_r_inv);
}

#[test]
fn from_limbs_rejects_unreduced_values() {
    assert!(fe_from_limbs(FR_MODULUS_0, FR_MODULUS_1, FR_MODULUS_2, FR_MODULUS_3).is_none());
    assert!(fe_from_limbs(u64::MAX, u64::MAX, u64::MAX, u64::MAX).is_none());
    assert!(fe_from_limbs(
        0x43e1f593f0000000,
        FR_MODULUS_1,
        FR_MODULUS_2,
        FR_MODULUS_3
    )
    .is_some());
}

#[test]
fn uneven_chunking_keeps_every_element() {
    // 20 elements in chunks of 7: the last chunk absorbs the remainder.
    let values: Vec<u64> = (1..=20).collect();
    let x = small_vec(&values);
    let y = small_vec(&values);
    let cfg = ChunkConfig::new(7, 0);
    let chunked = dispatch_binop(BinOp::Add, &cfg, &x, &y);
    let mut serial: Vec<FieldElement> = vec![fe_zero(); 20];
    add_vec_bn254(&x, &y, &mut serial);
    assert_eq!(chunked, serial);
    assert_eq!(dispatch_sum(&cfg, &x), sum_vec_bn254(&x));
}

#[test]
fn modulus_table_holds_kernel_constants() {
    let table = ModulusConstants::bn254_fr();
    assert_eq!(table.modulus_0, FR_MODULUS_0);
    assert_eq!(table.modulus_1, FR_MODULUS_1);
    assert_eq!(table.modulus_2, FR_MODULUS_2);
    assert_eq!(table.modulus_3, FR_MODULUS_3);
    assert_eq!(table.neg_inv, FR_NEG_INV);
    assert_eq!(table.barrett_mu, FR_MU);

    // The two supported fields share their upper modulus limbs and the
    // Barrett constant, but not the low limbs or the negated inverse.
    let base = ModulusConstants::bn254_fp();
    assert_eq!(base.modulus_2, table.modulus_2);
    assert_eq!(base.modulus_3, table.modulus_3);
    assert_eq!(base.barrett_mu, table.barrett_mu);
    assert_ne!(base.modulus_0, table.modulus_0);
    assert_ne!(base.neg_inv, table.neg_inv);
}

#[test]
fn inplace_variants_match_out_of_place() {
    let x = small_vec(&[3, 5, 7]);
    let y = small_vec(&[11, 13, 17]);
    let mut z: Vec<FieldElement> = vec![fe_zero(); 3];

    add_vec_bn254(&x, &y, &mut z);
    let mut xi = x.clone();
    add_vec_inplace_bn254(&mut xi, &y);
    assert_eq!(xi, z);

    sub_vec_bn254(&x, &y, &mut z);
    let mut xi = x.clone();
    sub_vec_inplace_bn254(&mut xi, &y);
    assert_eq!(xi, z);

    mul_vec_bn254(&x, &y, &mut z);
    let mut xi = x.clone();
    mul_vec_inplace_bn254(&mut xi, &y);
    assert_eq!(xi, z);
}
