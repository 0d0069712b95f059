//! Single-variable dense polynomials over a generic field-like coefficient
//! type, with a probabilistic zero/equality test based on the Schwartz-Zippel
//! lemma: a nonzero polynomial of degree d over a field of cardinality N
//! vanishes at a uniformly random point with probability at most d/N.

pub mod coefficient;
pub mod poly;
pub mod prime_field;
