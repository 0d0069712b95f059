//! The capability contract a coefficient type must satisfy to be usable for
//! polynomial arithmetic and randomized identity testing: field arithmetic,
//! additive and multiplicative identities, representation bounds, and uniform
//! sampling over a type-chosen overflow-safe range.

use vstd::prelude::*;

verus! {

/// The set of capabilities a polynomial coefficient type must provide.
///
/// Each arithmetic operation comes in two parts: a `spec` function giving the
/// operation's mathematical meaning, and an executable method proved to return
/// exactly that value. The `lemma_*` obligations pin down the field axioms the
/// polynomial engine's proofs rest on; an implementor must prove each of them,
/// so nothing here is taken on trust for types implemented in this crate.
///
/// `valid` is the implementor's well-formedness predicate (for instance, a
/// modular-arithmetic type requires its representative to be reduced); every
/// axiom is only required to hold on valid values, and every operation
/// preserves validity.
pub trait Coefficient: Sized + Copy {
    /// Well-formedness of a coefficient value.
    spec fn valid(&self) -> bool;

    /// Meaning of addition.
    spec fn spec_add(self, rhs: Self) -> Self;

    /// Meaning of subtraction.
    spec fn spec_sub(self, rhs: Self) -> Self;

    /// Meaning of multiplication.
    spec fn spec_mul(self, rhs: Self) -> Self;

    /// Meaning of division.
    spec fn spec_div(self, rhs: Self) -> Self;

    /// The additive identity.
    spec fn spec_zero() -> Self;

    /// The multiplicative identity.
    spec fn spec_one() -> Self;

    /// The least representable value.
    spec fn spec_min() -> Self;

    /// The greatest representable value.
    spec fn spec_max() -> Self;

    /// Whether `[lo, hi)` is a range this type can sample from.
    spec fn can_sample(lo: Self, hi: Self) -> bool;

    fn add(self, rhs: Self) -> (r: Self)
        requires
            self.valid(),
            rhs.valid(),
        ensures
            r == self.spec_add(rhs),
            r.valid(),
    ;

    fn sub(self, rhs: Self) -> (r: Self)
        requires
            self.valid(),
            rhs.valid(),
        ensures
            r == self.spec_sub(rhs),
            r.valid(),
    ;

    fn mul(self, rhs: Self) -> (r: Self)
        requires
            self.valid(),
            rhs.valid(),
        ensures
            r == self.spec_mul(rhs),
            r.valid(),
    ;

    fn div(self, rhs: Self) -> (r: Self)
        requires
            self.valid(),
            rhs.valid(),
            rhs != Self::spec_zero(),
        ensures
            r == self.spec_div(rhs),
            r.valid(),
    ;

    fn zero() -> (r: Self)
        ensures
            r == Self::spec_zero(),
            r.valid(),
    ;

    fn one() -> (r: Self)
        ensures
            r == Self::spec_one(),
            r.valid(),
    ;

    fn min_value() -> (r: Self)
        ensures
            r == Self::spec_min(),
            r.valid(),
    ;

    fn max_value() -> (r: Self)
        ensures
            r == Self::spec_max(),
            r.valid(),
    ;

    /// Whether this value is the additive identity.
    fn is_zero(&self) -> (r: bool)
        ensures
            r == (*self == Self::spec_zero()),
    ;

    /// A closed-open range, chosen by the type, that is safe to sample from:
    /// nonempty, and far enough from the representation bounds that a point
    /// drawn from it can be run through Horner evaluation without the
    /// arithmetic leaving the representable domain. For wide bounded types the
    /// usual derivation is to halve the extreme bounds.
    fn sampling_range() -> (r: (Self, Self))
        ensures
            Self::can_sample(r.0, r.1),
            r.0.valid(),
            r.1.valid(),
    ;

    /// Draw a value uniformly at random from `[lo, hi)`. Nothing can be
    /// promised about which value comes back, only that it is well formed.
    fn sample(lo: Self, hi: Self) -> (r: Self)
        requires
            Self::can_sample(lo, hi),
            lo.valid(),
            hi.valid(),
        ensures
            r.valid(),
    ;

    proof fn lemma_zero_valid()
        ensures
            Self::spec_zero().valid(),
    ;

    proof fn lemma_one_valid()
        ensures
            Self::spec_one().valid(),
    ;

    proof fn lemma_add_comm(a: Self, b: Self)
        requires
            a.valid(),
            b.valid(),
        ensures
            a.spec_add(b) == b.spec_add(a),
    ;

    proof fn lemma_add_assoc(a: Self, b: Self, c: Self)
        requires
            a.valid(),
            b.valid(),
            c.valid(),
        ensures
            a.spec_add(b).spec_add(c) == a.spec_add(b.spec_add(c)),
    ;

    proof fn lemma_add_zero(a: Self)
        requires
            a.valid(),
        ensures
            a.spec_add(Self::spec_zero()) == a,
    ;

    proof fn lemma_add_closed(a: Self, b: Self)
        requires
            a.valid(),
            b.valid(),
        ensures
            a.spec_add(b).valid(),
    ;

    proof fn lemma_sub_self(a: Self)
        requires
            a.valid(),
        ensures
            a.spec_sub(a) == Self::spec_zero(),
    ;

    proof fn lemma_sub_closed(a: Self, b: Self)
        requires
            a.valid(),
            b.valid(),
        ensures
            a.spec_sub(b).valid(),
    ;

    proof fn lemma_mul_comm(a: Self, b: Self)
        requires
            a.valid(),
            b.valid(),
        ensures
            a.spec_mul(b) == b.spec_mul(a),
    ;

    proof fn lemma_mul_assoc(a: Self, b: Self, c: Self)
        requires
            a.valid(),
            b.valid(),
            c.valid(),
        ensures
            a.spec_mul(b).spec_mul(c) == a.spec_mul(b.spec_mul(c)),
    ;

    proof fn lemma_mul_one(a: Self)
        requires
            a.valid(),
        ensures
            a.spec_mul(Self::spec_one()) == a,
    ;

    proof fn lemma_mul_zero(a: Self)
        requires
            a.valid(),
        ensures
            a.spec_mul(Self::spec_zero()) == Self::spec_zero(),
    ;

    proof fn lemma_mul_closed(a: Self, b: Self)
        requires
            a.valid(),
            b.valid(),
        ensures
            a.spec_mul(b).valid(),
    ;

    /// Multiplication distributes over addition on the right.
    proof fn lemma_mul_distrib(a: Self, b: Self, c: Self)
        requires
            a.valid(),
            b.valid(),
            c.valid(),
        ensures
            a.spec_add(b).spec_mul(c) == a.spec_mul(c).spec_add(b.spec_mul(c)),
    ;
}

} // verus!
