//! A concrete coefficient type: the prime field of integers modulo
//! `2^31 - 1`. Every arithmetic operation is verified against its
//! modular-arithmetic meaning, so the `Coefficient` axioms are proved rather
//! than assumed for this type. Division multiplies by the Fermat inverse
//! (`b^(p-2)`), computed by verified square-and-multiply exponentiation.

use vstd::arithmetic::div_mod::{
    lemma_add_mod_noop, lemma_mod_add_multiples_vanish, lemma_mod_bound, lemma_mul_mod_noop_left,
    lemma_mul_mod_noop_right, lemma_small_mod,
};
use vstd::arithmetic::mul::{
    lemma_mul_is_associative, lemma_mul_is_commutative, lemma_mul_is_distributive_add_other_way,
};
use vstd::arithmetic::power::{lemma_pow_mod_noop, lemma_pow_multiplies, lemma_square_is_pow2, pow};
use vstd::prelude::*;

use crate::coefficient::Coefficient;

verus! {

/// The field modulus: the Mersenne prime `2^31 - 1`. Small enough that a
/// product of two reduced values fits in a `u64`, large enough that a single
/// random evaluation point refutes a nonzero polynomial of small order with
/// overwhelming probability.
pub const FIELD_MODULUS: u64 = 2147483647;

/// Reduction of an integer into the field's canonical range `[0, FIELD_MODULUS)`.
spec fn fp_mod(x: int) -> int {
    x % (FIELD_MODULUS as int)
}

/// An element of the prime field, kept reduced: `valid` says the
/// representative lies in `[0, FIELD_MODULUS)`.
#[derive(Clone, Copy, Debug, PartialEq, Eq, Structural)]
pub struct Fp {
    v: u64,
}

proof fn lemma_fp_mod_in_range(x: int)
    ensures
        0 <= fp_mod(x) < FIELD_MODULUS as int,
{
    lemma_mod_bound(x, FIELD_MODULUS as int);
}

/// Relies on rand::random_range on a `Range<u64>`: the thread-local generator
/// draws a value uniformly from the nonempty range `[lo, hi)`, and panics only
/// on an empty range, which the precondition rules out.
#[verifier::external_body]
fn sample_u64(lo: u64, hi: u64) -> (r: u64)
    requires
        lo < hi,
    ensures
        lo <= r < hi,
{
    rand::random_range(lo..hi)
}

/// Square-and-multiply modular exponentiation: `base^e` reduced modulo
/// `FIELD_MODULUS`.
fn fp_pow_mod(base: u64, e: u64) -> (r: u64)
    requires
        base < FIELD_MODULUS,
    ensures
        r < FIELD_MODULUS,
        r as int == fp_mod(pow(base as int, e as nat)),
{
    let ghost b0 = base as int;
    let ghost e0 = e as nat;
    let mut acc: u64 = 1;
    let mut b = base;
    let mut k = e;
    while k > 0
        invariant
            b < FIELD_MODULUS,
            acc < FIELD_MODULUS,
            fp_mod((acc as int) * pow(b as int, k as nat)) == fp_mod(pow(b0, e0)),
        decreases k,
    {
        let p = FIELD_MODULUS;
        if k % 2 == 1 {
            proof {
                reveal(pow);
                let bi = b as int;
                let ai = acc as int;
                let tail = pow(bi, (k - 1) as nat);
                assert(pow(bi, k as nat) == bi * tail);
                assert(ai * b < p * p) by (nonlinear_arith)
                    requires
                        ai < p,
                        b < p,
                        0 <= ai,
                        0 <= b,
                ;
                lemma_mul_mod_noop_left(ai * bi, tail, p as int);
                lemma_mul_is_associative(ai, bi, tail);
                lemma_fp_mod_in_range(ai * bi);
            }
            acc = (acc * b) % p;
            k = k - 1;
        } else {
            proof {
                let bi = b as int;
                let ai = acc as int;
                let half = (k / 2) as nat;
                assert(b * b < p * p) by (nonlinear_arith)
                    requires
                        b < p,
                        0 <= b,
                ;
                lemma_square_is_pow2(bi);
                lemma_pow_multiplies(bi, 2, half);
                assert(2 * half == k as nat);
                assert(pow(pow(bi, 2), half) == pow(bi, k as nat));
                lemma_pow_mod_noop(bi * bi, half, p as int);
                lemma_mul_mod_noop_right(ai, pow(fp_mod(bi * bi), half), p as int);
                lemma_mul_mod_noop_right(ai, pow(bi, k as nat), p as int);
                lemma_fp_mod_in_range(bi * bi);
            }
            b = (b * b) % p;
            k = k / 2;
        }
    }
    proof {
        reveal(pow);
        assert(pow(b as int, 0nat) == 1);
        lemma_small_mod(acc as nat, FIELD_MODULUS as nat);
    }
    acc
}

impl Fp {
    /// The canonical representative of this field element, as an integer.
    pub closed spec fn spec_value(&self) -> int {
        self.v as int
    }

    /// The field element with representative `value`.
    pub fn new(value: u64) -> (r: Self)
        requires
            value < FIELD_MODULUS,
        ensures
            r.valid(),
            r.spec_value() == value,
    {
        Fp { v: value }
    }

    /// The canonical representative of this field element.
    pub fn value(&self) -> (r: u64)
        ensures
            r == self.spec_value(),
    {
        self.v
    }
}

impl Coefficient for Fp {
    closed spec fn valid(&self) -> bool {
        self.v < FIELD_MODULUS
    }

    closed spec fn spec_add(self, rhs: Self) -> Self {
        Fp { v: fp_mod(self.v + rhs.v) as u64 }
    }

    closed spec fn spec_sub(self, rhs: Self) -> Self {
        Fp { v: fp_mod(self.v - rhs.v) as u64 }
    }

    closed spec fn spec_mul(self, rhs: Self) -> Self {
        Fp { v: fp_mod(self.v * rhs.v) as u64 }
    }

    closed spec fn spec_div(self, rhs: Self) -> Self {
        Fp { v: fp_mod(self.v * pow(rhs.v as int, (FIELD_MODULUS - 2) as nat)) as u64 }
    }

    closed spec fn spec_zero() -> Self {
        Fp { v: 0 }
    }

    closed spec fn spec_one() -> Self {
        Fp { v: 1 }
    }

    closed spec fn spec_min() -> Self {
        Fp { v: 0 }
    }

    closed spec fn spec_max() -> Self {
        Fp { v: (FIELD_MODULUS - 1) as u64 }
    }

    closed spec fn can_sample(lo: Self, hi: Self) -> bool {
        lo.v < hi.v
    }

    fn add(self, rhs: Self) -> (r: Self) {
        let s = self.v + rhs.v;
        let m = s % FIELD_MODULUS;
        proof {
            lemma_fp_mod_in_range(s as int);
        }
        Fp { v: m }
    }

    fn sub(self, rhs: Self) -> (r: Self) {
        proof {
            let p = FIELD_MODULUS as int;
            let d = self.v - rhs.v;
            if self.v >= rhs.v {
                lemma_small_mod((self.v - rhs.v) as nat, FIELD_MODULUS as nat);
            } else {
                lemma_mod_add_multiples_vanish(d, p);
                lemma_small_mod((self.v + FIELD_MODULUS - rhs.v) as nat, FIELD_MODULUS as nat);
            }
        }
        if self.v >= rhs.v {
            Fp { v: self.v - rhs.v }
        } else {
            Fp { v: self.v + FIELD_MODULUS - rhs.v }
        }
    }

    fn mul(self, rhs: Self) -> (r: Self) {
        proof {
            let p = FIELD_MODULUS;
            assert(self.v * rhs.v < p * p) by (nonlinear_arith)
                requires
                    self.v < p,
                    rhs.v < p,
                    0 <= self.v,
                    0 <= rhs.v,
            ;
            lemma_fp_mod_in_range(self.v * rhs.v);
        }
        let m = (self.v * rhs.v) % FIELD_MODULUS;
        Fp { v: m }
    }

    fn div(self, rhs: Self) -> (r: Self) {
        let inv = fp_pow_mod(rhs.v, FIELD_MODULUS - 2);
        proof {
            let p = FIELD_MODULUS;
            assert(self.v * inv < p * p) by (nonlinear_arith)
                requires
                    self.v < p,
                    inv < p,
                    0 <= self.v,
                    0 <= inv,
            ;
            lemma_mul_mod_noop_right(
                self.v as int,
                pow(rhs.v as int, (FIELD_MODULUS - 2) as nat),
                p as int,
            );
            lemma_fp_mod_in_range(self.v * inv);
        }
        let m = (self.v * inv) % FIELD_MODULUS;
        Fp { v: m }
    }

    fn zero() -> (r: Self) {
        Fp { v: 0 }
    }

    fn one() -> (r: Self) {
        Fp { v: 1 }
    }

    fn min_value() -> (r: Self) {
        Fp { v: 0 }
    }

    fn max_value() -> (r: Self) {
        Fp { v: FIELD_MODULUS - 1 }
    }

    fn is_zero(&self) -> (r: bool) {
        self.v == 0
    }

    /// The field has no overflow to avoid, so any nonempty subrange of it
    /// would do; halving the upper bound keeps to the usual derivation for
    /// bounded types and still leaves about `2^30` candidate points.
    fn sampling_range() -> (r: (Self, Self)) {
        (Fp { v: 0 }, Fp { v: (FIELD_MODULUS - 1) / 2 })
    }

    fn sample(lo: Self, hi: Self) -> (r: Self) {
        Fp { v: sample_u64(lo.v, hi.v) }
    }

    proof fn lemma_zero_valid() {
    }

    proof fn lemma_one_valid() {
    }

    proof fn lemma_add_comm(a: Self, b: Self) {
    }

    proof fn lemma_add_assoc(a: Self, b: Self, c: Self) {
        let p = FIELD_MODULUS as int;
        lemma_fp_mod_in_range(a.v + b.v);
        lemma_fp_mod_in_range(b.v + c.v);
        lemma_small_mod(a.v as nat, FIELD_MODULUS as nat);
        lemma_small_mod(c.v as nat, FIELD_MODULUS as nat);
        lemma_add_mod_noop(a.v + b.v, c.v as int, p);
        lemma_add_mod_noop(a.v as int, b.v + c.v, p);
    }

    proof fn lemma_add_zero(a: Self) {
        lemma_small_mod(a.v as nat, FIELD_MODULUS as nat);
    }

    proof fn lemma_add_closed(a: Self, b: Self) {
        lemma_fp_mod_in_range(a.v + b.v);
    }

    proof fn lemma_sub_self(a: Self) {
        lemma_small_mod(0, FIELD_MODULUS as nat);
    }

    proof fn lemma_sub_closed(a: Self, b: Self) {
        lemma_fp_mod_in_range(a.v - b.v);
    }

    proof fn lemma_mul_comm(a: Self, b: Self) {
        lemma_mul_is_commutative(a.v as int, b.v as int);
    }

    proof fn lemma_mul_assoc(a: Self, b: Self, c: Self) {
        let p = FIELD_MODULUS as int;
        lemma_fp_mod_in_range(a.v * b.v);
        lemma_fp_mod_in_range(b.v * c.v);
        lemma_mul_mod_noop_left(a.v * b.v, c.v as int, p);
        lemma_mul_mod_noop_right(a.v as int, b.v * c.v, p);
        lemma_mul_is_associative(a.v as int, b.v as int, c.v as int);
    }

    proof fn lemma_mul_one(a: Self) {
        lemma_small_mod(a.v as nat, FIELD_MODULUS as nat);
    }

    proof fn lemma_mul_zero(a: Self) {
        lemma_small_mod(0, FIELD_MODULUS as nat);
    }

    proof fn lemma_mul_closed(a: Self, b: Self) {
        lemma_fp_mod_in_range(a.v * b.v);
    }

    proof fn lemma_mul_distrib(a: Self, b: Self, c: Self) {
        let p = FIELD_MODULUS as int;
        lemma_fp_mod_in_range(a.v + b.v);
        lemma_fp_mod_in_range(a.v * c.v);
        lemma_fp_mod_in_range(b.v * c.v);
        lemma_mul_mod_noop_left(a.v + b.v, c.v as int, p);
        lemma_mul_is_distributive_add_other_way(c.v as int, a.v as int, b.v as int);
        lemma_add_mod_noop(a.v * c.v, b.v * c.v, p);
    }
}

} // verus!
