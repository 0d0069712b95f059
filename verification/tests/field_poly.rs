//! Deterministic tests over the prime-field coefficient type. The modulus is
//! `2^31 - 1`, which is congruent to 3 modulo 4, so `x^2 + 1` has no root in
//! the field and its zero test can never answer `true`.

use schwartz_zippel::coefficient::Coefficient;
use schwartz_zippel::poly::{Polynomial, VecPoly};
use schwartz_zippel::prime_field::{Fp, FIELD_MODULUS};

fn fp(v: u64) -> Fp {
    Fp::new(v)
}

fn poly(cs: &[u64]) -> VecPoly<Fp> {
    VecPoly::new(cs.iter().map(|&v| fp(v)).collect())
}

#[test]
fn order_is_stored_length() {
    // Leading additive identities count: [0, 1] has order 2, not 1.
    assert_eq!(poly(&[0, 1]).order(), 2);
    assert_eq!(poly(&[1, 0, 1]).order(), 3);
    assert_eq!(VecPoly::<Fp>::zero().order(), 0);
}

#[test]
fn evaluate_empty_is_none() {
    let empty = VecPoly::<Fp>::zero();
    assert!(empty.evaluate(fp(0)).is_none());
    assert!(empty.evaluate(fp(7)).is_none());
    assert!(empty.evaluate(fp(FIELD_MODULUS - 1)).is_none());
}

#[test]
fn horner_matches_direct_sum() {
    // x^2 + 1 at 2 is 5.
    let p = poly(&[1, 0, 1]);
    assert_eq!(p.evaluate(fp(2)).unwrap().value(), 5);
    assert_eq!(p.evaluate(fp(0)).unwrap().value(), 1);
    assert_eq!(p.evaluate(fp(3)).unwrap().value(), 10);
    // 2x^3 + 3x^2 + 5x + 7 at 10: direct summation gives 2357.
    let q = poly(&[2, 3, 5, 7]);
    assert_eq!(q.evaluate(fp(10)).unwrap().value(), 2357);
}

#[test]
fn add_is_pointwise() {
    let r = poly(&[1, 2]).add(&poly(&[3, 4]));
    assert_eq!(r.order(), 2);
    assert_eq!(r.coefficient(0).value(), 4);
    assert_eq!(r.coefficient(1).value(), 6);
}

#[test]
fn sub_is_pointwise() {
    let r = poly(&[5, 5]).sub(&poly(&[2, 3]));
    assert_eq!(r.order(), 2);
    assert_eq!(r.coefficient(0).value(), 3);
    assert_eq!(r.coefficient(1).value(), 2);
}

#[test]
fn add_pads_shorter_operand() {
    // The shorter operand is extended with additive identities at the
    // high-degree end, not truncated.
    let r = poly(&[1, 2, 3]).add(&poly(&[1, 1]));
    assert_eq!(r.order(), 3);
    assert_eq!(r.coefficient(0).value(), 1);
    assert_eq!(r.coefficient(1).value(), 3);
    assert_eq!(r.coefficient(2).value(), 4);
}

#[test]
fn sub_wraps_into_the_field() {
    let r = poly(&[0]).sub(&poly(&[1]));
    assert_eq!(r.coefficient(0).value(), FIELD_MODULUS - 1);
}

#[test]
fn is_zero_on_identity_coefficients() {
    assert!(poly(&[0, 0, 0]).is_zero());
    assert!(VecPoly::<Fp>::zero().is_zero());
}

#[test]
fn is_zero_rejects_rootless_polynomial() {
    // x^2 + 1 has no root modulo 2^31 - 1, so every sampled point refutes it.
    let p = poly(&[1, 0, 1]);
    for _ in 0..20 {
        assert_eq!(p.is_zero(), false);
    }
    // A nonzero constant evaluates to itself everywhere.
    let c = poly(&[42]);
    for _ in 0..20 {
        assert_eq!(c.is_zero(), false);
    }
}

#[test]
fn is_zero_samples_more_than_one_point() {
    // The polynomial x vanishes only at 0. If the sampler always handed back
    // the low end of the range (which is 0), every trial would report zero.
    let p = poly(&[1, 0]);
    let mut refuted = false;
    for _ in 0..40 {
        if !p.is_zero() {
            refuted = true;
        }
    }
    assert!(refuted);
}

#[test]
fn probably_equal_is_reflexive() {
    let p = poly(&[1, 0, 1]);
    for _ in 0..10 {
        assert!(p.probably_equal(&p));
    }
    let z = VecPoly::<Fp>::zero();
    assert!(z.probably_equal(&z));
}

#[test]
fn probably_equal_pads_lengths() {
    // [0, 0, 1] and [1] denote the same polynomial once the shorter is
    // padded, so the difference is identically zero.
    assert!(poly(&[0, 0, 1]).probably_equal(&poly(&[1])));
}

#[test]
fn probably_equal_distinguishes_constants() {
    // The difference of two distinct constants is a nonzero constant, which
    // no sampled point can make vanish.
    for _ in 0..10 {
        assert!(!poly(&[1]).probably_equal(&poly(&[2])));
    }
}

#[test]
fn field_arithmetic_reduces() {
    assert_eq!(fp(FIELD_MODULUS - 1).add(fp(1)).value(), 0);
    assert_eq!(fp(3).mul(fp(5)).value(), 15);
    assert_eq!(fp(0).sub(fp(1)).value(), FIELD_MODULUS - 1);
    assert_eq!(fp(2).add(fp(3)).value(), 5);
}

#[test]
fn field_division_inverts_multiplication() {
    assert_eq!(fp(6).div(fp(3)).value(), 2);
    let a = fp(123456);
    let b = fp(789);
    assert_eq!(a.div(b).mul(b).value(), 123456);
    assert_eq!(fp(1).div(fp(2)).mul(fp(2)).value(), 1);
}

#[test]
fn field_identities_and_bounds() {
    assert_eq!(Fp::zero().value(), 0);
    assert_eq!(Fp::one().value(), 1);
    assert_eq!(Fp::min_value().value(), 0);
    assert_eq!(Fp::max_value().value(), FIELD_MODULUS - 1);
    assert!(Fp::zero().is_zero());
    assert!(!Fp::one().is_zero());
}
