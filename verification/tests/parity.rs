//! Parity of the serial, parallel and reference paths on random inputs.

use ark_bn254::Fr;
use ark_std::UniformRand;
use ark_std::Zero;
use rand::SeedableRng;
use rand_chacha::ChaCha8Rng;

use vectorized_fields::element::{fe_from_limbs, fe_zero, FieldElement};
use vectorized_fields::{
    add_vec_bn254, add_vec_par_bn254, inner_product_bn254, inner_product_par_bn254, mul_vec_bn254,
    mul_vec_par_bn254, sub_vec_bn254, sub_vec_par_bn254, sum_vec_bn254, sum_vec_par_bn254,
};

fn rand_vec(size: usize) -> Vec<Fr> {
    let mut rng = ChaCha8Rng::from_entropy();
    (0..size).map(|_| Fr::rand(&mut rng)).collect()
}

fn to_elements(v: &[Fr]) -> Vec<FieldElement> {
    v.iter()
        .map(|f| {
            let limbs = (f.0).0;
            fe_from_limbs(limbs[0], limbs[1], limbs[2], limbs[3]).unwrap()
        })
        .collect()
}

#[test]
fn parallel_parity_vec_mul() {
    const NUM_OPS: usize = 10_000;
    let x = to_elements(&rand_vec(NUM_OPS));
    let y = to_elements(&rand_vec(NUM_OPS));
    let mut z: Vec<FieldElement> = vec![fe_zero(); NUM_OPS];

    let x_par = x.clone();
    let y_par = y.clone();
    let mut z_par = z.clone();

    mul_vec_bn254(&x, &y, &mut z);
    mul_vec_par_bn254(&x_par, &y_par, &mut z_par);
    assert_eq!(z, z_par);
}

#[test]
fn parallel_parity_inner_product() {
    const NUM_OPS: usize = 10_000;
    let x = to_elements(&rand_vec(NUM_OPS));
    let y = to_elements(&rand_vec(NUM_OPS));

    let z = inner_product_bn254(&x, &y);
    let par_z = inner_product_par_bn254(&x, &y);
    assert_eq!(z, par_z);
}

#[test]
fn parallel_parity_vec_add() {
    const NUM_OPS: usize = 10_000;
    let x = to_elements(&rand_vec(NUM_OPS));
    let y = to_elements(&rand_vec(NUM_OPS));
    let mut z: Vec<FieldElement> = vec![fe_zero(); NUM_OPS];

    let x_par = x.clone();
    let y_par = y.clone();
    let mut z_par = z.clone();

    add_vec_bn254(&x, &y, &mut z);
    add_vec_par_bn254(&x_par, &y_par, &mut z_par);
    assert_eq!(z, z_par);
}

#[test]
fn parallel_parity_vec_sub() {
    const NUM_OPS: usize = 10_000;
    let x = to_elements(&rand_vec(NUM_OPS));
    let y = to_elements(&rand_vec(NUM_OPS));
    let mut z: Vec<FieldElement> = vec![fe_zero(); NUM_OPS];

    let x_par = x.clone();
    let y_par = y.clone();
    let mut z_par = z.clone();

    sub_vec_bn254(&x, &y, &mut z);
    sub_vec_par_bn254(&x_par, &y_par, &mut z_par);
    assert_eq!(z, z_par);
}

#[test]
fn parallel_parity_vec_sum() {
    const NUM_OPS: usize = 10_000;
    let x = to_elements(&rand_vec(NUM_OPS));

    let x_par = x.clone();

    let z = sum_vec_bn254(&x);
    let z_par = sum_vec_par_bn254(&x_par);
    assert_eq!(z, z_par);
}

#[test]
fn parity_ark_mul() {
    const NUM_OPS: usize = 5;
    let x = rand_vec(NUM_OPS);
    let y = rand_vec(NUM_OPS);
    let mut ark_z: Vec<Fr> = vec![Fr::zero(); NUM_OPS];
    for i in 0..NUM_OPS {
        ark_z[i] = x[i] * y[i];
    }

    let xe = to_elements(&x);
    let ye = to_elements(&y);
    let mut z: Vec<FieldElement> = vec![fe_zero(); NUM_OPS];
    mul_vec_bn254(&xe, &ye, &mut z);
    assert_eq!(z, to_elements(&ark_z));
}

#[test]
fn parity_ark_add() {
    const NUM_OPS: usize = 5;
    let x = rand_vec(NUM_OPS);
    let y = rand_vec(NUM_OPS);
    let mut ark_z: Vec<Fr> = vec![Fr::zero(); NUM_OPS];
    for i in 0..NUM_OPS {
        ark_z[i] = x[i] + y[i];
    }

    let xe = to_elements(&x);
    let ye = to_elements(&y);
    let mut z: Vec<FieldElement> = vec![fe_zero(); NUM_OPS];
    add_vec_bn254(&xe, &ye, &mut z);
    assert_eq!(z, to_elements(&ark_z));
}

#[test]
fn parity_ark_sub() {
    const NUM_OPS: usize = 5;
    let x = rand_vec(NUM_OPS);
    let y = rand_vec(NUM_OPS);
    let mut ark_z: Vec<Fr> = vec![Fr::zero(); NUM_OPS];
    for i in 0..NUM_OPS {
        ark_z[i] = x[i] - y[i];
    }

    let xe = to_elements(&x);
    let ye = to_elements(&y);
    let mut z: Vec<FieldElement> = vec![fe_zero(); NUM_OPS];
    sub_vec_bn254(&xe, &ye, &mut z);
    assert_eq!(z, to_elements(&ark_z));
}

#[test]
fn parity_ark_inner_product() {
    const NUM_OPS: usize = 500;
    let x = rand_vec(NUM_OPS);
    let y = rand_vec(NUM_OPS);
    let mut ark_z = Fr::zero();
    for i in 0..NUM_OPS {
        ark_z += x[i] * y[i];
    }

    let xe = to_elements(&x);
    let ye = to_elements(&y);
    let z = inner_product_bn254(&xe, &ye);
    assert_eq!(z, to_elements(&[ark_z])[0]);
}

#[test]
fn inner_product_small_matches_reference() {
    const NUM_OPS: usize = 5;
    let x = rand_vec(NUM_OPS);
    let y = rand_vec(NUM_OPS);
    let mut ark_z = Fr::zero();
    for i in 0..NUM_OPS {
        ark_z += x[i] * y[i];
    }

    let xe = to_elements(&x);
    let ye = to_elements(&y);
    let z = inner_product_bn254(&xe, &ye);
    assert_eq!(z, to_elements(&[ark_z])[0]);
}

#[test]
fn parity_ark_sum() {
    const NUM_OPS: usize = 5;
    let x = rand_vec(NUM_OPS);
    let mut ark_z = Fr::zero();
    for i in 0..NUM_OPS {
        ark_z += x[i];
    }

    let xe = to_elements(&x);
    let z = sum_vec_bn254(&xe);
    assert_eq!(z, to_elements(&[ark_z])[0]);
}
