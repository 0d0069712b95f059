//! The randomized zero test over floating-point coefficients, wired in from
//! outside the library: a coefficient type only has to supply the
//! `Coefficient` capability set.

use schwartz_zippel::coefficient::Coefficient;
use schwartz_zippel::poly::{Polynomial, VecPoly};

#[derive(Clone, Copy, Debug)]
struct F64C(f64);

impl Coefficient for F64C {
    // The ghost side of the capability contract is erased at runtime; these
    // bodies exist only to satisfy the trait and mirror the real operations.
    fn valid(&self) -> bool {
        true
    }

    fn spec_add(self, rhs: Self) -> Self {
        F64C(self.0 + rhs.0)
    }

    fn spec_sub(self, rhs: Self) -> Self {
        F64C(self.0 - rhs.0)
    }

    fn spec_mul(self, rhs: Self) -> Self {
        F64C(self.0 * rhs.0)
    }

    fn spec_div(self, rhs: Self) -> Self {
        F64C(self.0 / rhs.0)
    }

    fn spec_zero() -> Self {
        F64C(0.0)
    }

    fn spec_one() -> Self {
        F64C(1.0)
    }

    fn spec_min() -> Self {
        F64C(f64::MIN)
    }

    fn spec_max() -> Self {
        F64C(f64::MAX)
    }

    fn can_sample(lo: Self, hi: Self) -> bool {
        lo.0 < hi.0
    }

    fn lemma_zero_valid() {}

    fn lemma_one_valid() {}

    fn lemma_add_comm(_: Self, _: Self) {}

    fn lemma_add_assoc(_: Self, _: Self, _: Self) {}

    fn lemma_add_zero(_: Self) {}

    fn lemma_add_closed(_: Self, _: Self) {}

    fn lemma_sub_self(_: Self) {}

    fn lemma_sub_closed(_: Self, _: Self) {}

    fn lemma_mul_comm(_: Self, _: Self) {}

    fn lemma_mul_assoc(_: Self, _: Self, _: Self) {}

    fn lemma_mul_one(_: Self) {}

    fn lemma_mul_zero(_: Self) {}

    fn lemma_mul_closed(_: Self, _: Self) {}

    fn lemma_mul_distrib(_: Self, _: Self, _: Self) {}

    fn add(self, rhs: Self) -> Self {
        F64C(self.0 + rhs.0)
    }

    fn sub(self, rhs: Self) -> Self {
        F64C(self.0 - rhs.0)
    }

    fn mul(self, rhs: Self) -> Self {
        F64C(self.0 * rhs.0)
    }

    fn div(self, rhs: Self) -> Self {
        F64C(self.0 / rhs.0)
    }

    fn zero() -> Self {
        F64C(0.0)
    }

    fn one() -> Self {
        F64C(1.0)
    }

    fn min_value() -> Self {
        F64C(f64::MIN)
    }

    fn max_value() -> Self {
        F64C(f64::MAX)
    }

    fn is_zero(&self) -> bool {
        self.0 == 0.0
    }

    fn sampling_range() -> (Self, Self) {
        let two = Self::one().0 + Self::one().0;
        (F64C(Self::min_value().0 / two), F64C(Self::max_value().0 / two))
    }

    fn sample(lo: Self, hi: Self) -> Self {
        F64C(rand::random_range(lo.0..hi.0))
    }
}

#[derive(Clone, Copy, Debug)]
struct F32C(f32);

impl Coefficient for F32C {
    // As for F64C: the ghost side is erased at runtime, and these bodies only
    // satisfy the trait.
    fn valid(&self) -> bool {
        true
    }

    fn spec_add(self, rhs: Self) -> Self {
        F32C(self.0 + rhs.0)
    }

    fn spec_sub(self, rhs: Self) -> Self {
        F32C(self.0 - rhs.0)
    }

    fn spec_mul(self, rhs: Self) -> Self {
        F32C(self.0 * rhs.0)
    }

    fn spec_div(self, rhs: Self) -> Self {
        F32C(self.0 / rhs.0)
    }

    fn spec_zero() -> Self {
        F32C(0.0)
    }

    fn spec_one() -> Self {
        F32C(1.0)
    }

    fn spec_min() -> Self {
        F32C(f32::MIN)
    }

    fn spec_max() -> Self {
        F32C(f32::MAX)
    }

    fn can_sample(lo: Self, hi: Self) -> bool {
        lo.0 < hi.0
    }

    fn lemma_zero_valid() {}

    fn lemma_one_valid() {}

    fn lemma_add_comm(_: Self, _: Self) {}

    fn lemma_add_assoc(_: Self, _: Self, _: Self) {}

    fn lemma_add_zero(_: Self) {}

    fn lemma_add_closed(_: Self, _: Self) {}

    fn lemma_sub_self(_: Self) {}

    fn lemma_sub_closed(_: Self, _: Self) {}

    fn lemma_mul_comm(_: Self, _: Self) {}

    fn lemma_mul_assoc(_: Self, _: Self, _: Self) {}

    fn lemma_mul_one(_: Self) {}

    fn lemma_mul_zero(_: Self) {}

    fn lemma_mul_closed(_: Self, _: Self) {}

    fn lemma_mul_distrib(_: Self, _: Self, _: Self) {}

    fn add(self, rhs: Self) -> Self {
        F32C(self.0 + rhs.0)
    }

    fn sub(self, rhs: Self) -> Self {
        F32C(self.0 - rhs.0)
    }

    fn mul(self, rhs: Self) -> Self {
        F32C(self.0 * rhs.0)
    }

    fn div(self, rhs: Self) -> Self {
        F32C(self.0 / rhs.0)
    }

    fn zero() -> Self {
        F32C(0.0)
    }

    fn one() -> Self {
        F32C(1.0)
    }

    fn min_value() -> Self {
        F32C(f32::MIN)
    }

    fn max_value() -> Self {
        F32C(f32::MAX)
    }

    fn is_zero(&self) -> bool {
        self.0 == 0.0
    }

    fn sampling_range() -> (Self, Self) {
        let two = Self::one().0 + Self::one().0;
        (F32C(Self::min_value().0 / two), F32C(Self::max_value().0 / two))
    }

    fn sample(lo: Self, hi: Self) -> Self {
        F32C(rand::random_range(lo.0..hi.0))
    }
}

#[test]
fn check_nonzero() {
    let nonzero_poly = VecPoly::<F64C> {
        coefficients: vec![F64C(1.0), F64C(0.0), F64C(1.0)],
    };
    assert_eq!(nonzero_poly.is_zero(), false)
}

#[test]
fn check_zero() {
    let nonzero_poly = VecPoly::<F32C> {
        coefficients: vec![F32C(0.0), F32C(0.0), F32C(0.0)],
    };
    assert_eq!(nonzero_poly.is_zero(), true)
}

#[test]
fn float_horner_value() {
    let poly = VecPoly::<F64C> {
        coefficients: vec![F64C(1.0), F64C(0.0), F64C(1.0)],
    };
    let direct = 1.0 * 2.0 * 2.0 + 0.0 * 2.0 + 1.0;
    let got = poly.evaluate(F64C(2.0)).unwrap().0;
    assert!((got - direct).abs() < 1e-12);
    assert!((got - 5.0).abs() < 1e-12);
}

#[test]
fn float_evaluate_empty_is_none() {
    let poly = VecPoly::<F64C> { coefficients: vec![] };
    assert!(poly.evaluate(F64C(3.5)).is_none());
}
