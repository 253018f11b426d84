//! The numbers that matrices hold.
//!
//! The engine never looks inside a number: it only asks for a zero, for sums,
//! differences and products, and for a sample drawn from random bits. Each
//! operation comes as a pair: a `spec` function, which says what the result
//! is, and an executable method that returns exactly that value.

use vstd::prelude::*;

verus! {

/// A type of numbers closed under addition, subtraction and multiplication.
///
/// Every operation is total: an implementation never panics and never fails.
/// The `spec` functions are the meaning of the methods, so a type whose
/// arithmetic rounds (a floating-point type, say) states its own rounding
/// arithmetic there; no algebraic law is assumed. The laws that a proof needs
/// are named below and are asked for where they are used.
///
/// The engine guards against nothing that a number type may hold besides
/// numbers: an infinity or a value that is not a number passes through every
/// operation and comes out in the result, for the caller to deal with.
pub trait Scalar: Copy + Sized {
    /// The additive identity that sums start from.
    spec fn zero_spec() -> Self;

    /// `self + rhs`.
    spec fn plus_spec(self, rhs: Self) -> Self;

    /// `self - rhs`.
    spec fn minus_spec(self, rhs: Self) -> Self;

    /// `self * rhs`.
    spec fn times_spec(self, rhs: Self) -> Self;

    /// The number in `[-1, 1]` that the 64 random bits `word` stand for.
    spec fn sample_spec(word: u64) -> Self;

    fn zero() -> (r: Self)
        ensures
            r == Self::zero_spec(),
    ;

    fn plus(self, rhs: Self) -> (r: Self)
        ensures
            r == self.plus_spec(rhs),
    ;

    fn minus(self, rhs: Self) -> (r: Self)
        ensures
            r == self.minus_spec(rhs),
    ;

    fn times(self, rhs: Self) -> (r: Self)
        ensures
            r == self.times_spec(rhs),
    ;

    /// Maps uniformly distributed bits to a number spread evenly over `[-1, 1]`.
    fn sample(word: u64) -> (r: Self)
        ensures
            r == Self::sample_spec(word),
    ;
}

/// Exact integer arithmetic modulo 2^64, in two's complement.
///
/// Samples are the three integers of `[-1, 1]`.
impl Scalar for i64 {
    open spec fn zero_spec() -> i64 {
        0i64
    }

    open spec fn plus_spec(self, rhs: i64) -> i64 {
        self.wrapping_add(rhs)
    }

    open spec fn minus_spec(self, rhs: i64) -> i64 {
        self.wrapping_sub(rhs)
    }

    open spec fn times_spec(self, rhs: i64) -> i64 {
        self.wrapping_mul(rhs)
    }

    open spec fn sample_spec(word: u64) -> i64 {
        (word % 3 - 1) as i64
    }

    fn zero() -> (r: i64) {
        0i64
    }

    fn plus(self, rhs: i64) -> (r: i64) {
        self.wrapping_add(rhs)
    }

    fn minus(self, rhs: i64) -> (r: i64) {
        self.wrapping_sub(rhs)
    }

    fn times(self, rhs: i64) -> (r: i64) {
        self.wrapping_mul(rhs)
    }

    fn sample(word: u64) -> (r: i64) {
        let third: u64 = word % 3;
        if third == 0 {
            -1i64
        } else if third == 1 {
            0i64
        } else {
            1i64
        }
    }
}

/// Addition may be regrouped: `(a + b) + c == a + (b + c)`.
pub open spec fn plus_is_associative<S: Scalar>() -> bool {
    forall|a: S, b: S, c: S| #[trigger]
        a.plus_spec(b).plus_spec(c) == a.plus_spec(b.plus_spec(c))
}

/// Addition may be reordered: `a + b == b + a`.
pub open spec fn plus_is_commutative<S: Scalar>() -> bool {
    forall|a: S, b: S| #[trigger] a.plus_spec(b) == b.plus_spec(a)
}

/// Zero added to a number leaves it as it is, on either side.
pub open spec fn zero_is_neutral<S: Scalar>() -> bool {
    forall|a: S|
        #![trigger a.plus_spec(S::zero_spec())]
        #![trigger S::zero_spec().plus_spec(a)]
        a.plus_spec(S::zero_spec()) == a && S::zero_spec().plus_spec(a) == a
}

/// Multiplication may be reordered: `a * b == b * a`.
pub open spec fn times_is_commutative<S: Scalar>() -> bool {
    forall|a: S, b: S| #[trigger] a.times_spec(b) == b.times_spec(a)
}

/// Multiplication may be regrouped: `(a * b) * c == a * (b * c)`.
pub open spec fn times_is_associative<S: Scalar>() -> bool {
    forall|a: S, b: S, c: S| #[trigger]
        a.times_spec(b).times_spec(c) == a.times_spec(b.times_spec(c))
}

/// Multiplication distributes over addition from both sides, and a product
/// with zero is zero.
pub open spec fn times_distributes<S: Scalar>() -> bool {
    &&& forall|a: S, b: S, c: S| #[trigger]
        a.times_spec(b.plus_spec(c)) == a.times_spec(b).plus_spec(a.times_spec(c))
    &&& forall|a: S, b: S, c: S| #[trigger]
        a.plus_spec(b).times_spec(c) == a.times_spec(c).plus_spec(b.times_spec(c))
    &&& forall|a: S| #[trigger] a.times_spec(S::zero_spec()) == S::zero_spec()
    &&& forall|a: S| #[trigger] S::zero_spec().times_spec(a) == S::zero_spec()
}

/// The laws of a semiring: what regrouping a product of three matrices needs.
pub open spec fn is_semiring<S: Scalar>() -> bool {
    &&& plus_is_associative::<S>()
    &&& plus_is_commutative::<S>()
    &&& zero_is_neutral::<S>()
    &&& times_is_associative::<S>()
    &&& times_distributes::<S>()
}

/// The executable function `f` may be called on every number.
pub open spec fn accepts_all<S, F: Fn(S) -> S>(f: F) -> bool {
    forall|x: S| call_requires(f, (x,))
}

/// Whatever the executable function `f` returns on `x` is `g(x)`: the
/// mathematical function `g` says what `f` computes.
pub open spec fn computes<S, F: Fn(S) -> S>(f: F, g: spec_fn(S) -> S) -> bool {
    forall|x: S, y: S| call_ensures(f, (x,), y) ==> y == g(x)
}

} // verus!
