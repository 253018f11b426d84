//! Laws of matrix algebra, proved of the model.
//!
//! The laws that rest on a law of the numbers ask for it: arithmetic that
//! rounds does not regroup, so floating-point matrices obey them only up to
//! rounding. Exchanging rows and columns twice gives the matrix back whatever
//! the numbers are.

use vstd::arithmetic::div_mod::{
    lemma_add_mod_noop, lemma_mod_sub_multiples_vanish, lemma_mul_mod_noop_general,
};
use vstd::arithmetic::mul::{lemma_mul_is_associative, lemma_mul_is_distributive_add};
use vstd::prelude::*;
use vstd::wrapping::i64_specs::signed_crop;
use crate::grid::Grid;
use crate::scalar::{
    is_semiring, plus_is_associative, plus_is_commutative, times_distributes,
    times_is_commutative, zero_is_neutral, Scalar,
};

verus! {

/// Two grids of one shape that agree entry by entry are the same grid.
pub proof fn lemma_equal_entries<S>(a: Grid<S>, b: Grid<S>)
    requires
        a.wf(),
        b.wf(),
        a.same_shape(b),
        forall|i: int, j: int| 0 <= i < a.rows && 0 <= j < a.cols ==> a.at(i, j) == b.at(i, j),
    ensures
        a == b,
{
    assert forall|i: int| 0 <= i < a.rows implies #[trigger] a.cells[i] == b.cells[i] by {
        assert forall|j: int| 0 <= j < a.cols implies #[trigger] a.cells[i][j] == b.cells[i][j] by {
            assert(a.at(i, j) == b.at(i, j));
        }
        assert(a.cells[i] =~= b.cells[i]);
    }
    assert(a.cells =~= b.cells);
}

/// Matrix addition may be regrouped: `(a + b) + c == a + (b + c)`, where the
/// addition of numbers may be.
pub proof fn lemma_sum_is_associative<S: Scalar>(a: Grid<S>, b: Grid<S>, c: Grid<S>)
    requires
        a.wf(),
        b.wf(),
        c.wf(),
        a.same_shape(b),
        b.same_shape(c),
        plus_is_associative::<S>(),
    ensures
        a.sum(b).sum(c) == a.sum(b.sum(c)),
{
    lemma_equal_entries(a.sum(b).sum(c), a.sum(b.sum(c)));
}

/// Matrix addition may be reordered: `a + b == b + a`, where the addition of
/// numbers may be.
pub proof fn lemma_sum_is_commutative<S: Scalar>(a: Grid<S>, b: Grid<S>)
    requires
        a.wf(),
        b.wf(),
        a.same_shape(b),
        plus_is_commutative::<S>(),
    ensures
        a.sum(b) == b.sum(a),
{
    lemma_equal_entries(a.sum(b), b.sum(a));
}

/// The entry-by-entry product may be reordered: `a .* b == b .* a`, where the
/// multiplication of numbers may be.
pub proof fn lemma_hadamard_is_commutative<S: Scalar>(a: Grid<S>, b: Grid<S>)
    requires
        a.wf(),
        b.wf(),
        a.same_shape(b),
        times_is_commutative::<S>(),
    ensures
        a.hadamard(b) == b.hadamard(a),
{
    lemma_equal_entries(a.hadamard(b), b.hadamard(a));
}

/// Exchanging rows and columns twice gives the matrix back.
pub proof fn lemma_transpose_is_an_involution<S>(a: Grid<S>)
    requires
        a.wf(),
    ensures
        a.transposed().wf(),
        a.transposed().has_shape(a.cols, a.rows),
        a.transposed().transposed() == a,
{
    lemma_equal_entries(a.transposed().transposed(), a);
}

/// The sum of `term(0), .., term(n - 1)`, added from left to right starting
/// at zero.
pub open spec fn total<S: Scalar>(term: spec_fn(int) -> S, n: nat) -> S
    decreases n,
{
    if n == 0 {
        S::zero_spec()
    } else {
        total(term, (n - 1) as nat).plus_spec(term(n - 1))
    }
}

/// Sums of terms that agree are the same.
proof fn lemma_total_of_equal_terms<S: Scalar>(f: spec_fn(int) -> S, g: spec_fn(int) -> S, n: nat)
    requires
        forall|t: int| 0 <= t < n ==> #[trigger] f(t) == g(t),
    ensures
        total(f, n) == total(g, n),
    decreases n,
{
    if n > 0 {
        lemma_total_of_equal_terms(f, g, (n - 1) as nat);
    }
}

/// A sum of zeros is zero.
proof fn lemma_total_of_zeros<S: Scalar>(f: spec_fn(int) -> S, n: nat)
    requires
        zero_is_neutral::<S>(),
        forall|t: int| 0 <= t < n ==> #[trigger] f(t) == S::zero_spec(),
    ensures
        total(f, n) == S::zero_spec(),
    decreases n,
{
    if n > 0 {
        lemma_total_of_zeros(f, (n - 1) as nat);
    }
}

/// A factor on the right may be taken out of a sum.
proof fn lemma_total_times<S: Scalar>(f: spec_fn(int) -> S, g: spec_fn(int) -> S, c: S, n: nat)
    requires
        times_distributes::<S>(),
        forall|t: int| 0 <= t < n ==> #[trigger] g(t) == f(t).times_spec(c),
    ensures
        total(g, n) == total(f, n).times_spec(c),
    decreases n,
{
    if n > 0 {
        lemma_total_times(f, g, c, (n - 1) as nat);
    }
}

/// A factor on the left may be taken out of a sum.
proof fn lemma_times_total<S: Scalar>(f: spec_fn(int) -> S, g: spec_fn(int) -> S, c: S, n: nat)
    requires
        times_distributes::<S>(),
        forall|t: int| 0 <= t < n ==> #[trigger] g(t) == c.times_spec(f(t)),
    ensures
        total(g, n) == c.times_spec(total(f, n)),
    decreases n,
{
    if n > 0 {
        lemma_times_total(f, g, c, (n - 1) as nat);
    }
}

/// The sum of sums, term by term, is the sum of the two sums.
proof fn lemma_total_of_sums<S: Scalar>(
    f: spec_fn(int) -> S,
    g: spec_fn(int) -> S,
    h: spec_fn(int) -> S,
    n: nat,
)
    requires
        plus_is_associative::<S>(),
        plus_is_commutative::<S>(),
        zero_is_neutral::<S>(),
        forall|t: int| 0 <= t < n ==> #[trigger] h(t) == f(t).plus_spec(g(t)),
    ensures
        total(h, n) == total(f, n).plus_spec(total(g, n)),
    decreases n,
{
    if n > 0 {
        let m = (n - 1) as nat;
        lemma_total_of_sums(f, g, h, m);
        let (x, y, u, v) = (total(f, m), total(g, m), f(n - 1), g(n - 1));
        // (x + y) + (u + v) == (x + u) + (y + v)
        assert(x.plus_spec(y).plus_spec(u.plus_spec(v)) == x.plus_spec(
            y.plus_spec(u.plus_spec(v)),
        ));
        assert(y.plus_spec(u.plus_spec(v)) == y.plus_spec(u).plus_spec(v));
        assert(y.plus_spec(u) == u.plus_spec(y));
        assert(u.plus_spec(y).plus_spec(v) == u.plus_spec(y.plus_spec(v)));
        assert(x.plus_spec(u.plus_spec(y.plus_spec(v))) == x.plus_spec(u).plus_spec(
            y.plus_spec(v),
        ));
    }
}

/// A sum over `t` of sums over `s` is the sum over `s` of the sums over `t`.
proof fn lemma_total_exchange<S: Scalar>(
    h: spec_fn(int, int) -> S,
    over_s: spec_fn(int) -> S,
    over_t: spec_fn(int) -> S,
    m: nat,
    n: nat,
)
    requires
        plus_is_associative::<S>(),
        plus_is_commutative::<S>(),
        zero_is_neutral::<S>(),
        forall|t: int| 0 <= t < n ==> #[trigger] over_s(t) == total(|s: int| h(s, t), m),
        forall|s: int| 0 <= s < m ==> #[trigger] over_t(s) == total(|t: int| h(s, t), n),
    ensures
        total(over_s, n) == total(over_t, m),
    decreases n,
{
    if n == 0 {
        lemma_total_of_zeros(over_t, m);
    } else {
        let k = (n - 1) as nat;
        let shorter = |s: int| total(|t: int| h(s, t), k);
        let last = |s: int| h(s, n - 1);
        lemma_total_exchange(h, over_s, shorter, m, k);
        assert(over_s(n - 1) == total(last, m)) by {
            lemma_total_of_equal_terms(last, |s: int| h(s, n - 1), m);
        }
        lemma_total_of_sums(shorter, last, over_t, m);
    }
}

/// An entry of a product is the sum of the products along its row and column.
proof fn lemma_dot_is_total<S: Scalar>(a: Grid<S>, b: Grid<S>, i: int, j: int, n: nat)
    ensures
        a.dot(b, i, j, n) == total(|t: int| a.at(i, t).times_spec(b.at(t, j)), n),
    decreases n,
{
    if n > 0 {
        lemma_dot_is_total(a, b, i, j, (n - 1) as nat);
    }
}

/// The matrix product may be regrouped: `(a * b) * c == a * (b * c)`, where
/// the numbers form a semiring.
pub proof fn lemma_product_is_associative<S: Scalar>(a: Grid<S>, b: Grid<S>, c: Grid<S>)
    requires
        a.wf(),
        b.wf(),
        c.wf(),
        a.cols == b.rows,
        b.cols == c.rows,
        is_semiring::<S>(),
    ensures
        a.product(b).product(c) == a.product(b.product(c)),
{
    let left = a.product(b).product(c);
    let right = a.product(b.product(c));
    assert forall|i: int, j: int| 0 <= i < a.rows && 0 <= j < c.cols implies left.at(i, j)
        == right.at(i, j) by {
        // every product a[i][s] * b[s][t] * c[t][j], grouped to the right
        let h = |s: int, t: int| a.at(i, s).times_spec(b.at(s, t).times_spec(c.at(t, j)));
        // left: the sum over t of (a * b)[i][t] * c[t][j]
        let left_terms = |t: int| a.product(b).at(i, t).times_spec(c.at(t, j));
        // right: the sum over s of a[i][s] * (b * c)[s][j]
        let right_terms = |s: int| a.at(i, s).times_spec(b.product(c).at(s, j));
        lemma_dot_is_total(a.product(b), c, i, j, b.cols);
        lemma_dot_is_total(a, b.product(c), i, j, a.cols);
        assert forall|t: int| 0 <= t < b.cols implies #[trigger] left_terms(t) == total(
            |s: int| h(s, t),
            a.cols,
        ) by {
            let along = |s: int| a.at(i, s).times_spec(b.at(s, t));
            let scaled = |s: int| h(s, t);
            lemma_dot_is_total(a, b, i, t, a.cols);
            assert(a.product(b).at(i, t) == total(along, a.cols));
            lemma_total_times(along, scaled, c.at(t, j), a.cols);
        }
        assert forall|s: int| 0 <= s < a.cols implies #[trigger] right_terms(s) == total(
            |t: int| h(s, t),
            b.cols,
        ) by {
            let along = |t: int| b.at(s, t).times_spec(c.at(t, j));
            let scaled = |t: int| h(s, t);
            lemma_dot_is_total(b, c, s, j, b.cols);
            assert(b.product(c).at(s, j) == total(along, b.cols));
            lemma_times_total(along, scaled, a.at(i, s), b.cols);
        }
        lemma_total_exchange(h, left_terms, right_terms, a.cols, b.cols);
    }
    lemma_equal_entries(left, right);
}

/// The number of 64-bit patterns.
spec fn range() -> int {
    0x1_0000_0000_0000_0000
}

/// Cropping an integer to 64 bits keeps its remainder.
proof fn lemma_crop_is_congruent(x: int)
    ensures
        (signed_crop(x) as int) % range() == x % range(),
{
    if x % range() > i64::MAX as int {
        lemma_mod_sub_multiples_vanish(x % range(), range());
    }
    assert((x % range()) % range() == x % range());
}

/// Integers with the same remainder crop to the same 64 bits.
proof fn lemma_crop_of_congruent(x: int, y: int)
    requires
        x % range() == y % range(),
    ensures
        signed_crop(x) == signed_crop(y),
{
}

/// A wrapping sum is the exact sum, cropped.
proof fn lemma_plus_crops(a: i64, b: i64)
    ensures
        a.plus_spec(b) == signed_crop(a + b),
{
}

/// The 64-bit integers with wrapping arithmetic obey every law named in this
/// crate: they form a commutative ring.
pub proof fn lemma_integers_form_a_ring()
    ensures
        is_semiring::<i64>(),
        times_is_commutative::<i64>(),
{
    assert forall|a: i64, b: i64, c: i64| #[trigger]
        a.times_spec(b).times_spec(c) == a.times_spec(b.times_spec(c)) by {
        lemma_crop_is_congruent(a * b);
        lemma_crop_is_congruent(b * c);
        lemma_mul_mod_noop_general(signed_crop(a * b) as int, c as int, range());
        lemma_mul_mod_noop_general(a * b, c as int, range());
        lemma_mul_mod_noop_general(a as int, signed_crop(b * c) as int, range());
        lemma_mul_mod_noop_general(a as int, b * c, range());
        lemma_mul_is_associative(a as int, b as int, c as int);
        lemma_crop_of_congruent(signed_crop(a * b) * c, a * signed_crop(b * c));
    }
    assert forall|a: i64, b: i64, c: i64| #[trigger]
        a.times_spec(b.plus_spec(c)) == a.times_spec(b).plus_spec(a.times_spec(c)) by {
        lemma_plus_crops(b, c);
        lemma_plus_crops(a.times_spec(b), a.times_spec(c));
        lemma_crop_is_congruent(b + c);
        lemma_crop_is_congruent(a * b);
        lemma_crop_is_congruent(a * c);
        lemma_mul_mod_noop_general(a as int, signed_crop(b + c) as int, range());
        lemma_mul_mod_noop_general(a as int, b + c, range());
        lemma_add_mod_noop(signed_crop(a * b) as int, signed_crop(a * c) as int, range());
        lemma_add_mod_noop(a * b, a * c, range());
        lemma_mul_is_distributive_add(a as int, b as int, c as int);
        lemma_crop_of_congruent(a * signed_crop(b + c), signed_crop(a * b) + signed_crop(a * c));
    }
    assert forall|a: i64, b: i64, c: i64| #[trigger]
        a.plus_spec(b).times_spec(c) == a.times_spec(c).plus_spec(b.times_spec(c)) by {
        lemma_plus_crops(a, b);
        lemma_plus_crops(a.times_spec(c), b.times_spec(c));
        lemma_crop_is_congruent(a + b);
        lemma_crop_is_congruent(a * c);
        lemma_crop_is_congruent(b * c);
        lemma_mul_mod_noop_general(signed_crop(a + b) as int, c as int, range());
        lemma_mul_mod_noop_general(a + b, c as int, range());
        lemma_add_mod_noop(signed_crop(a * c) as int, signed_crop(b * c) as int, range());
        lemma_add_mod_noop(a * c, b * c, range());
        lemma_mul_is_distributive_add(c as int, a as int, b as int);
        assert((a + b) * c == a * c + b * c) by (nonlinear_arith);
        lemma_crop_of_congruent(signed_crop(a + b) * c, signed_crop(a * c) + signed_crop(b * c));
    }
    assert forall|a: i64, b: i64| #[trigger] a.times_spec(b) == b.times_spec(a) by {
        assert(a * b == b * a) by (nonlinear_arith);
    }
    assert forall|a: i64| #[trigger] a.times_spec(0i64) == 0i64 by {
        assert(a * 0 == 0) by (nonlinear_arith);
    }
    assert forall|a: i64| #[trigger] 0i64.times_spec(a) == 0i64 by {
        assert(0 * a == 0) by (nonlinear_arith);
    }
}

} // verus!
