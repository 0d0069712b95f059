//! Dense single-variable polynomials over a generic `Coefficient` type:
//! the representation, order and Horner evaluation, pointwise addition and
//! subtraction with zero-padding of the shorter operand, and the randomized
//! zero and equality tests.

use vstd::prelude::*;

use crate::coefficient::Coefficient;

verus! {

/// Every element of the sequence is a well-formed coefficient.
pub open spec fn all_valid<T: Coefficient>(cs: Seq<T>) -> bool {
    forall|i: int| 0 <= i < cs.len() ==> (#[trigger] cs[i]).valid()
}

/// Every element of the sequence is the additive identity.
pub open spec fn all_zero<T: Coefficient>(cs: Seq<T>) -> bool {
    forall|i: int| 0 <= i < cs.len() ==> #[trigger] cs[i] == T::spec_zero()
}

/// Horner evaluation of a coefficient sequence (highest degree first) at `x`:
/// the accumulator starts at the first coefficient, and each remaining
/// coefficient `c` updates it to `acc * x + c`. The empty sequence is given
/// the additive identity, though `evaluate` never uses that case.
pub open spec fn horner<T: Coefficient>(cs: Seq<T>, x: T) -> T
    decreases cs.len(),
{
    if cs.len() == 0 {
        T::spec_zero()
    } else if cs.len() == 1 {
        cs[0]
    } else {
        horner(cs.drop_last(), x).spec_mul(x).spec_add(cs.last())
    }
}

/// `x` raised to the `e`-th power, in coefficient arithmetic.
pub open spec fn coeff_pow<T: Coefficient>(x: T, e: nat) -> T
    decreases e,
{
    if e == 0 {
        T::spec_one()
    } else {
        coeff_pow(x, (e - 1) as nat).spec_mul(x)
    }
}

/// Direct polynomial summation: `sum of cs[i] * x^(len - 1 - i)`.
pub open spec fn power_sum<T: Coefficient>(cs: Seq<T>, x: T) -> T
    decreases cs.len(),
{
    if cs.len() == 0 {
        T::spec_zero()
    } else {
        cs[0].spec_mul(coeff_pow(x, (cs.len() - 1) as nat)).spec_add(power_sum(cs.drop_first(), x))
    }
}

/// The sequence extended to length `n` by additive identities at the front
/// (the high-degree end), leaving the represented polynomial unchanged.
pub open spec fn pad_front<T: Coefficient>(cs: Seq<T>, n: nat) -> Seq<T> {
    Seq::new(n, |i: int| if i < n - cs.len() { T::spec_zero() } else { cs[i - (n - cs.len())] })
}

/// Pointwise sum of two coefficient sequences, the shorter padded with
/// additive identities at its high-degree end.
pub open spec fn padded_pointwise_add<T: Coefficient>(a: Seq<T>, b: Seq<T>) -> Seq<T> {
    let n = if a.len() >= b.len() { a.len() } else { b.len() };
    Seq::new(n, |i: int| pad_front(a, n)[i].spec_add(pad_front(b, n)[i]))
}

/// Pointwise difference of two coefficient sequences, the shorter padded with
/// additive identities at its high-degree end.
pub open spec fn padded_pointwise_sub<T: Coefficient>(a: Seq<T>, b: Seq<T>) -> Seq<T> {
    let n = if a.len() >= b.len() { a.len() } else { b.len() };
    Seq::new(n, |i: int| pad_front(a, n)[i].spec_sub(pad_front(b, n)[i]))
}

/// A polynomial with coefficients of type `T`, stored highest degree first.
pub trait Polynomial<T: Coefficient>: Sized {
    /// The stored coefficient sequence, highest degree first.
    spec fn coeffs(&self) -> Seq<T>;

    /// The order of the polynomial: the length of the stored coefficient
    /// sequence. This is a storage-size metric, not the reduced mathematical
    /// degree — leading additive-identity coefficients are never trimmed, so
    /// a polynomial stored as `[0, 1]` has order 2.
    fn order(&self) -> (r: usize)
        ensures
            r == self.coeffs().len(),
    ;

    /// Evaluate the polynomial at `element` by Horner's method. Returns no
    /// value exactly when the coefficient sequence is empty, since the
    /// zero-length representation has no defined evaluation.
    fn evaluate(&self, element: T) -> (r: Option<T>)
        requires
            all_valid(self.coeffs()),
            element.valid(),
        ensures
            self.coeffs().len() == 0 <==> r is None,
            self.coeffs().len() > 0 ==> r == Some(horner(self.coeffs(), element)),
            self.coeffs().len() > 0 ==> horner(self.coeffs(), element).valid(),
    ;
}

/// A dense polynomial backed by a coefficient vector: `x^2 + 1` is
/// `[1, 0, 1]`.
#[derive(Clone, Debug)]
pub struct VecPoly<T> {
    pub coefficients: Vec<T>,
}

impl<T: Coefficient> Polynomial<T> for VecPoly<T> {
    open spec fn coeffs(&self) -> Seq<T> {
        self.coefficients@
    }

    fn order(&self) -> (r: usize) {
        self.coefficients.len()
    }

    fn evaluate(&self, element: T) -> (r: Option<T>) {
        let n = self.coefficients.len();
        if n == 0 {
            return None;
        }
        let mut acc = self.coefficients[0];
        proof {
            let cs = self.coefficients@;
            assert(cs.subrange(0, 1).len() == 1);
            assert(cs.subrange(0, 1)[0] == cs[0]);
        }
        let mut i: usize = 1;
        while i < n
            invariant
                1 <= i <= n,
                n == self.coefficients@.len(),
                all_valid(self.coefficients@),
                element.valid(),
                acc == horner(self.coefficients@.subrange(0, i as int), element),
                acc.valid(),
            decreases n - i,
        {
            let c = self.coefficients[i];
            proof {
                let cs = self.coefficients@;
                assert(cs.subrange(0, i + 1).drop_last() =~= cs.subrange(0, i as int));
                assert(cs.subrange(0, i + 1).last() == cs[i as int]);
            }
            acc = acc.mul(element).add(c);
            i = i + 1;
        }
        proof {
            assert(self.coefficients@.subrange(0, n as int) =~= self.coefficients@);
        }
        Some(acc)
    }
}

impl<T: Coefficient> VecPoly<T> {
    /// The polynomial with the given coefficient sequence, highest degree
    /// first.
    pub fn new(coefficients: Vec<T>) -> (r: Self)
        requires
            all_valid(coefficients@),
        ensures
            r.coeffs() == coefficients@,
            all_valid(r.coeffs()),
    {
        VecPoly { coefficients }
    }

    /// The zero polynomial: no coefficients at all.
    pub fn zero() -> (r: Self)
        ensures
            r.coeffs().len() == 0,
            all_valid(r.coeffs()),
    {
        VecPoly { coefficients: Vec::new() }
    }

    /// The coefficient at position `i` (position 0 is the highest-degree
    /// term).
    pub fn coefficient(&self, i: usize) -> (r: T)
        requires
            i < self.coeffs().len(),
        ensures
            r == self.coeffs()[i as int],
    {
        self.coefficients[i]
    }

    /// Pointwise sum: the shorter operand is padded with additive identities
    /// at its high-degree end, so the result has the longer operand's length.
    pub fn add(&self, other: &Self) -> (r: Self)
        requires
            all_valid(self.coeffs()),
            all_valid(other.coeffs()),
        ensures
            r.coeffs() == padded_pointwise_add(self.coeffs(), other.coeffs()),
            all_valid(r.coeffs()),
    {
        let sl = self.coefficients.len();
        let ol = other.coefficients.len();
        let n = if sl >= ol { sl } else { ol };
        let ghost target = padded_pointwise_add(self.coeffs(), other.coeffs());
        let mut out: Vec<T> = Vec::new();
        let mut i: usize = 0;
        while i < n
            invariant
                i <= n,
                sl == self.coefficients@.len(),
                ol == other.coefficients@.len(),
                n == if sl >= ol { sl } else { ol },
                all_valid(self.coefficients@),
                all_valid(other.coefficients@),
                target == padded_pointwise_add(self.coefficients@, other.coefficients@),
                out@.len() == i,
                forall|j: int| 0 <= j < i ==> out@[j] == #[trigger] target[j],
                all_valid(out@),
            decreases n - i,
        {
            let a = if i >= n - sl {
                self.coefficients[i - (n - sl)]
            } else {
                T::zero()
            };
            let b = if i >= n - ol {
                other.coefficients[i - (n - ol)]
            } else {
                T::zero()
            };
            proof {
                assert(a == pad_front(self.coefficients@, n as nat)[i as int]);
                assert(b == pad_front(other.coefficients@, n as nat)[i as int]);
            }
            out.push(a.add(b));
            i = i + 1;
        }
        let r = VecPoly { coefficients: out };
        proof {
            assert(r.coeffs() =~= target);
        }
        r
    }

    /// Pointwise difference: the shorter operand is padded with additive
    /// identities at its high-degree end, so the result has the longer
    /// operand's length.
    pub fn sub(&self, other: &Self) -> (r: Self)
        requires
            all_valid(self.coeffs()),
            all_valid(other.coeffs()),
        ensures
            r.coeffs() == padded_pointwise_sub(self.coeffs(), other.coeffs()),
            all_valid(r.coeffs()),
    {
        let sl = self.coefficients.len();
        let ol = other.coefficients.len();
        let n = if sl >= ol { sl } else { ol };
        let ghost target = padded_pointwise_sub(self.coeffs(), other.coeffs());
        let mut out: Vec<T> = Vec::new();
        let mut i: usize = 0;
        while i < n
            invariant
                i <= n,
                sl == self.coefficients@.len(),
                ol == other.coefficients@.len(),
                n == if sl >= ol { sl } else { ol },
                all_valid(self.coefficients@),
                all_valid(other.coefficients@),
                target == padded_pointwise_sub(self.coefficients@, other.coefficients@),
                out@.len() == i,
                forall|j: int| 0 <= j < i ==> out@[j] == #[trigger] target[j],
                all_valid(out@),
            decreases n - i,
        {
            let a = if i >= n - sl {
                self.coefficients[i - (n - sl)]
            } else {
                T::zero()
            };
            let b = if i >= n - ol {
                other.coefficients[i - (n - ol)]
            } else {
                T::zero()
            };
            proof {
                assert(a == pad_front(self.coefficients@, n as nat)[i as int]);
                assert(b == pad_front(other.coefficients@, n as nat)[i as int]);
            }
            out.push(a.sub(b));
            i = i + 1;
        }
        let r = VecPoly { coefficients: out };
        proof {
            assert(r.coeffs() =~= target);
        }
        r
    }

    /// The Schwartz-Zippel zero test: draw one point uniformly from the
    /// coefficient type's safe sampling range and evaluate there; report zero
    /// exactly when the evaluation yields the additive identity (or when the
    /// polynomial has no coefficients at all).
    ///
    /// When every stored coefficient is the additive identity the answer is
    /// `true` deterministically. When it is not, a `true` answer can only
    /// come from sampling a root: for a nonzero polynomial of order d over a
    /// sampling range of N points that happens with probability at most d/N,
    /// and only a single sample is taken, so a caller needing tighter
    /// soundness must repeat the test and combine the answers by logical and.
    pub fn is_zero(&self) -> (r: bool)
        requires
            all_valid(self.coeffs()),
        ensures
            all_zero(self.coeffs()) ==> r,
            r ==> self.coeffs().len() == 0 || exists|pt: T|
                pt.valid() && #[trigger] horner(self.coeffs(), pt) == T::spec_zero(),
            !r ==> exists|pt: T|
                pt.valid() && #[trigger] horner(self.coeffs(), pt) != T::spec_zero(),
    {
        let range = T::sampling_range();
        let pt = T::sample(range.0, range.1);
        match self.evaluate(pt) {
            None => true,
            Some(v) => {
                proof {
                    if all_zero(self.coeffs()) {
                        lemma_zero_coeffs_evaluate_to_zero(self.coeffs(), pt);
                    }
                }
                v.is_zero()
            },
        }
    }

    /// The randomized equality test: `self` and `other` are declared equal
    /// when their difference passes the zero test. Equal coefficient
    /// sequences are reported equal deterministically; sequences of unequal
    /// length are compared with the shorter padded by additive identities, so
    /// `[0, 1]` and `[1]` compare equal.
    pub fn probably_equal(&self, other: &Self) -> (r: bool)
        requires
            all_valid(self.coeffs()),
            all_valid(other.coeffs()),
        ensures
            self.coeffs() == other.coeffs() ==> r,
            all_zero(padded_pointwise_sub(self.coeffs(), other.coeffs())) ==> r,
            r ==> padded_pointwise_sub(self.coeffs(), other.coeffs()).len() == 0 || exists|pt: T|
                pt.valid() && #[trigger] horner(
                    padded_pointwise_sub(self.coeffs(), other.coeffs()),
                    pt,
                ) == T::spec_zero(),
            !r ==> exists|pt: T|
                pt.valid() && #[trigger] horner(
                    padded_pointwise_sub(self.coeffs(), other.coeffs()),
                    pt,
                ) != T::spec_zero(),
    {
        let diff = self.sub(other);
        proof {
            if self.coeffs() == other.coeffs() {
                let cs = self.coeffs();
                let n = cs.len();
                assert forall|i: int| 0 <= i < diff.coeffs().len() implies #[trigger] diff.coeffs()[i]
                    == T::spec_zero() by {
                    assert(pad_front(cs, n)[i] == cs[i]);
                    T::lemma_sub_self(cs[i]);
                };
            }
        }
        diff.is_zero()
    }
}

/// A coefficient sequence made of additive identities evaluates to the
/// additive identity at every well-formed point: every term of the Horner
/// recursion collapses through `0 * x + 0 == 0`.
pub proof fn lemma_zero_coeffs_evaluate_to_zero<T: Coefficient>(cs: Seq<T>, x: T)
    requires
        x.valid(),
        all_zero(cs),
    ensures
        horner(cs, x) == T::spec_zero(),
    decreases cs.len(),
{
    T::lemma_zero_valid();
    if cs.len() == 0 {
    } else if cs.len() == 1 {
        assert(cs[0] == T::spec_zero());
    } else {
        assert forall|i: int| 0 <= i < cs.drop_last().len() implies #[trigger] cs.drop_last()[i]
            == T::spec_zero() by {
            assert(cs.drop_last()[i] == cs[i]);
        };
        lemma_zero_coeffs_evaluate_to_zero(cs.drop_last(), x);
        assert(cs.last() == T::spec_zero());
        T::lemma_mul_comm(T::spec_zero(), x);
        T::lemma_mul_zero(x);
        T::lemma_add_zero(T::spec_zero());
    }
}

/// Raising a well-formed point to any power yields a well-formed value.
pub proof fn lemma_coeff_pow_valid<T: Coefficient>(x: T, e: nat)
    requires
        x.valid(),
    ensures
        coeff_pow(x, e).valid(),
    decreases e,
{
    if e == 0 {
        T::lemma_one_valid();
    } else {
        lemma_coeff_pow_valid(x, (e - 1) as nat);
        T::lemma_mul_closed(coeff_pow(x, (e - 1) as nat), x);
    }
}

/// Direct summation of well-formed coefficients at a well-formed point yields
/// a well-formed value.
pub proof fn lemma_power_sum_valid<T: Coefficient>(cs: Seq<T>, x: T)
    requires
        x.valid(),
        all_valid(cs),
    ensures
        power_sum(cs, x).valid(),
    decreases cs.len(),
{
    if cs.len() == 0 {
        T::lemma_zero_valid();
    } else {
        let pw = coeff_pow(x, (cs.len() - 1) as nat);
        lemma_coeff_pow_valid(x, (cs.len() - 1) as nat);
        T::lemma_mul_closed(cs[0], pw);
        assert forall|i: int| 0 <= i < cs.drop_first().len() implies (#[trigger] cs.drop_first()[i]).valid() by {
            assert(cs.drop_first()[i] == cs[i + 1]);
        };
        lemma_power_sum_valid(cs.drop_first(), x);
        T::lemma_add_closed(cs[0].spec_mul(pw), power_sum(cs.drop_first(), x));
    }
}

/// Peeling the lowest-degree term off a direct summation: the sum over `cs`
/// equals the sum over all but the last coefficient, multiplied by `x`, plus
/// the last coefficient.
proof fn lemma_power_sum_step<T: Coefficient>(cs: Seq<T>, x: T)
    requires
        cs.len() >= 1,
        x.valid(),
        all_valid(cs),
    ensures
        power_sum(cs, x) == power_sum(cs.drop_last(), x).spec_mul(x).spec_add(cs.last()),
    decreases cs.len(),
{
    T::lemma_zero_valid();
    T::lemma_one_valid();
    if cs.len() == 1 {
        // Left side: cs[0] * x^0 + (empty sum) == cs[0] * one + zero == cs[0].
        assert(cs.drop_first().len() == 0);
        assert(power_sum(cs.drop_first(), x) == T::spec_zero());
        assert(coeff_pow(x, 0nat) == T::spec_one());
        T::lemma_mul_one(cs[0]);
        T::lemma_add_zero(cs[0]);
        assert(power_sum(cs, x) == cs[0]);
        // Right side: (empty sum) * x + cs[0] == zero * x + cs[0] == cs[0].
        assert(cs.drop_last().len() == 0);
        T::lemma_mul_comm(T::spec_zero(), x);
        T::lemma_mul_zero(x);
        T::lemma_add_comm(T::spec_zero(), cs[0]);
        T::lemma_add_zero(cs[0]);
    } else {
        let n = cs.len();
        let c0 = cs[0];
        let tail = cs.drop_first();
        let front = cs.drop_last();
        assert forall|i: int| 0 <= i < tail.len() implies (#[trigger] tail[i]).valid() by {
            assert(tail[i] == cs[i + 1]);
        };
        assert forall|i: int| 0 <= i < front.len() implies (#[trigger] front[i]).valid() by {
            assert(front[i] == cs[i]);
        };
        assert(tail.len() == n - 1);
        assert(front.len() == n - 1);
        lemma_power_sum_step(tail, x);
        assert(front.drop_first() =~= tail.drop_last());
        assert(front[0] == c0);
        assert(tail.last() == cs.last());
        assert(cs.last() == cs[n - 1]);
        assert(cs[n - 1].valid());

        let psd = power_sum(tail.drop_last(), x);
        let pw_low = coeff_pow(x, (n - 2) as nat);
        let pw_high = coeff_pow(x, (n - 1) as nat);
        assert(pw_high == pw_low.spec_mul(x));
        assert(power_sum(front, x) == c0.spec_mul(pw_low).spec_add(psd));
        assert(power_sum(cs, x) == c0.spec_mul(pw_high).spec_add(psd.spec_mul(x).spec_add(cs.last())));

        // Validity of every intermediate value the axioms are applied to.
        assert forall|i: int| 0 <= i < tail.drop_last().len() implies (#[trigger] tail.drop_last()[i]).valid() by {
            assert(tail.drop_last()[i] == cs[i + 1]);
        };
        lemma_power_sum_valid(tail.drop_last(), x);
        lemma_coeff_pow_valid(x, (n - 2) as nat);
        lemma_coeff_pow_valid(x, (n - 1) as nat);
        T::lemma_mul_closed(c0, pw_low);

        // (c0 * pw_low + psd) * x == (c0 * pw_low) * x + psd * x
        T::lemma_mul_distrib(c0.spec_mul(pw_low), psd, x);
        assert(power_sum(front, x).spec_mul(x) == c0.spec_mul(pw_low).spec_mul(x).spec_add(
            psd.spec_mul(x),
        ));
        // (c0 * pw_low) * x == c0 * (pw_low * x) == c0 * pw_high
        T::lemma_mul_assoc(c0, pw_low, x);
        assert(c0.spec_mul(pw_low).spec_mul(x) == c0.spec_mul(pw_high));
        // Regroup: c0 * pw_high + (psd * x + last) == (c0 * pw_high + psd * x) + last.
        T::lemma_mul_closed(c0, pw_high);
        T::lemma_mul_closed(psd, x);
        T::lemma_add_assoc(c0.spec_mul(pw_high), psd.spec_mul(x), cs.last());
        assert(power_sum(cs, x) == c0.spec_mul(pw_high).spec_add(psd.spec_mul(x)).spec_add(
            cs.last(),
        ));
        assert(power_sum(front, x).spec_mul(x).spec_add(cs.last()) == c0.spec_mul(
            pw_high,
        ).spec_add(psd.spec_mul(x)).spec_add(cs.last()));
    }
}

/// Horner's method computes exactly the direct polynomial summation
/// `sum of cs[i] * x^(len - 1 - i)`, for every coefficient sequence of
/// well-formed values and every well-formed point.
pub proof fn lemma_horner_matches_power_sum<T: Coefficient>(cs: Seq<T>, x: T)
    requires
        x.valid(),
        all_valid(cs),
    ensures
        horner(cs, x) == power_sum(cs, x),
    decreases cs.len(),
{
    if cs.len() == 0 {
    } else if cs.len() == 1 {
        T::lemma_one_valid();
        assert(coeff_pow(x, 0nat) == T::spec_one());
        T::lemma_mul_one(cs[0]);
        assert(cs.drop_first().len() == 0);
        assert(power_sum(cs.drop_first(), x) == T::spec_zero());
        T::lemma_add_zero(cs[0]);
        assert(power_sum(cs, x) == cs[0]);
    } else {
        assert forall|i: int| 0 <= i < cs.drop_last().len() implies (#[trigger] cs.drop_last()[i]).valid() by {
            assert(cs.drop_last()[i] == cs[i]);
        };
        lemma_horner_matches_power_sum(cs.drop_last(), x);
        lemma_power_sum_step(cs, x);
    }
}

} // verus!
