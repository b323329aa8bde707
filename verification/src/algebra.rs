//! Finite sums of integers and the few identities about them that the
//! sharing scheme rests on.

use vstd::arithmetic::div_mod::{lemma_add_mod_noop, lemma_mul_mod_noop_general};
use vstd::arithmetic::mul::{lemma_mul_is_distributive_add, lemma_mul_is_associative};
use vstd::prelude::*;

verus! {

/// `f(0) + f(1) + ... + f(n - 1)`; zero when `n <= 0`.
pub open spec fn sum(n: int, f: spec_fn(int) -> int) -> int
    decreases n,
{
    if n <= 0 {
        0
    } else {
        sum(n - 1, f) + f(n - 1)
    }
}

/// Sums of termwise equal functions are equal.
pub proof fn lemma_sum_equal(n: int, f: spec_fn(int) -> int, g: spec_fn(int) -> int)
    requires
        forall|k: int| 0 <= k < n ==> #[trigger] f(k) == g(k),
    ensures
        sum(n, f) == sum(n, g),
    decreases n,
{
    if n > 0 {
        lemma_sum_equal(n - 1, f, g);
    }
}

/// Sums of termwise congruent functions are congruent.
pub proof fn lemma_sum_congruent(n: int, f: spec_fn(int) -> int, g: spec_fn(int) -> int, m: int)
    requires
        m > 0,
        forall|k: int| 0 <= k < n ==> #[trigger] f(k) % m == g(k) % m,
    ensures
        sum(n, f) % m == sum(n, g) % m,
    decreases n,
{
    if n > 0 {
        lemma_sum_congruent(n - 1, f, g, m);
        lemma_add_mod_noop(sum(n - 1, f), f(n - 1), m);
        lemma_add_mod_noop(sum(n - 1, g), g(n - 1), m);
    }
}

/// A sum of sums is the sum of the termwise sums.
pub proof fn lemma_sum_add(
    n: int,
    f: spec_fn(int) -> int,
    g: spec_fn(int) -> int,
    h: spec_fn(int) -> int,
)
    requires
        forall|k: int| 0 <= k < n ==> #[trigger] h(k) == f(k) + g(k),
    ensures
        sum(n, h) == sum(n, f) + sum(n, g),
    decreases n,
{
    if n > 0 {
        lemma_sum_add(n - 1, f, g, h);
    }
}

/// A common factor moves out of a sum.
pub proof fn lemma_sum_scale(n: int, c: int, f: spec_fn(int) -> int, g: spec_fn(int) -> int)
    requires
        forall|k: int| 0 <= k < n ==> #[trigger] g(k) == c * f(k),
    ensures
        sum(n, g) == c * sum(n, f),
    decreases n,
{
    if n > 0 {
        lemma_sum_scale(n - 1, c, f, g);
        lemma_mul_is_distributive_add(c, sum(n - 1, f), f(n - 1));
    } else {
        assert(c * 0 == 0);
    }
}

/// A sum whose terms all vanish is zero.
pub proof fn lemma_sum_zero(n: int, f: spec_fn(int) -> int)
    requires
        forall|k: int| 0 <= k < n ==> #[trigger] f(k) == 0,
    ensures
        sum(n, f) == 0,
    decreases n,
{
    if n > 0 {
        lemma_sum_zero(n - 1, f);
    }
}

/// A sum with a single non-vanishing term equals that term.
pub proof fn lemma_sum_single(n: int, a: int, f: spec_fn(int) -> int)
    requires
        0 <= a < n,
        forall|k: int| 0 <= k < n && k != a ==> #[trigger] f(k) == 0,
    ensures
        sum(n, f) == f(a),
    decreases n,
{
    if a == n - 1 {
        lemma_sum_zero(n - 1, f);
    } else {
        lemma_sum_single(n - 1, a, f);
    }
}

/// The order of two nested sums can be exchanged: `rows(i)` is the `i`-th row
/// sum of `f` and `cols(j)` its `j`-th column sum.
pub proof fn lemma_sum_exchange(
    n: int,
    m: int,
    f: spec_fn(int, int) -> int,
    rows: spec_fn(int) -> int,
    cols: spec_fn(int) -> int,
)
    requires
        forall|i: int| 0 <= i < n ==> #[trigger] rows(i) == sum(m, |j: int| f(i, j)),
        forall|j: int| 0 <= j < m ==> #[trigger] cols(j) == sum(n, |i: int| f(i, j)),
    ensures
        sum(n, rows) == sum(m, cols),
    decreases n,
{
    if n <= 0 {
        lemma_sum_zero(m, cols);
    } else {
        let cols_before = |j: int| sum(n - 1, |i: int| f(i, j));
        lemma_sum_exchange(n - 1, m, f, rows, cols_before);
        let last = |j: int| f(n - 1, j);
        assert forall|j: int| 0 <= j < m implies #[trigger] cols(j) == cols_before(j) + last(j) by {
            assert(cols(j) == sum(n, |i: int| f(i, j)));
        }
        lemma_sum_add(m, cols_before, last, cols);
        assert(rows(n - 1) == sum(m, |j: int| f(n - 1, j)));
        lemma_sum_equal(m, last, |j: int| f(n - 1, j));
    }
}

/// Multiplication respects congruence in both factors.
pub proof fn lemma_mul_congruent(a: int, b: int, c: int, d: int, m: int)
    requires
        m > 0,
        a % m == c % m,
        b % m == d % m,
    ensures
        (a * b) % m == (c * d) % m,
{
    lemma_mul_mod_noop_general(a, b, m);
    lemma_mul_mod_noop_general(c, d, m);
}

/// Products of three factors may be regrouped.
pub proof fn lemma_mul_regroup(a: int, b: int, c: int)
    ensures
        a * (b * c) == (a * b) * c,
{
    lemma_mul_is_associative(a, b, c);
}

} // verus!
