//! Sums of a measure over the items of a sequence, and how they move when
//! one item is replaced, appended or taken out.

use vstd::prelude::*;

verus! {

/// The sum of `f` over the items of `s`.
pub open spec fn sum_by<T>(s: Seq<T>, f: spec_fn(T) -> int) -> int
    decreases s.len(),
{
    if s.len() == 0 {
        0
    } else {
        sum_by(s.drop_last(), f) + f(s.last())
    }
}

/// Appending an item adds its measure.
pub proof fn lemma_sum_push<T>(s: Seq<T>, x: T, f: spec_fn(T) -> int)
    ensures
        sum_by(s.push(x), f) == sum_by(s, f) + f(x),
{
    assert(s.push(x).drop_last() =~= s);
}

/// Replacing the item at `i` exchanges its measure for the new one.
pub proof fn lemma_sum_update<T>(s: Seq<T>, i: int, x: T, f: spec_fn(T) -> int)
    requires
        0 <= i < s.len(),
    ensures
        sum_by(s.update(i, x), f) == sum_by(s, f) - f(s[i]) + f(x),
    decreases s.len(),
{
    if i == s.len() - 1 {
        assert(s.update(i, x).drop_last() =~= s.drop_last());
    } else {
        lemma_sum_update(s.drop_last(), i, x, f);
        assert(s.update(i, x).drop_last() =~= s.drop_last().update(i, x));
    }
}

/// Taking out the item at `i` takes out its measure.
pub proof fn lemma_sum_remove<T>(s: Seq<T>, i: int, f: spec_fn(T) -> int)
    requires
        0 <= i < s.len(),
    ensures
        sum_by(s.remove(i), f) == sum_by(s, f) - f(s[i]),
    decreases s.len(),
{
    if i == s.len() - 1 {
        assert(s.remove(i) =~= s.drop_last());
    } else {
        lemma_sum_remove(s.drop_last(), i, f);
        assert(s.remove(i).drop_last() =~= s.drop_last().remove(i));
        assert(s.remove(i).last() == s.last());
    }
}

/// Where no item has a negative measure, each measure lies between zero and
/// the sum.
pub proof fn lemma_sum_bounds<T>(s: Seq<T>, i: int, f: spec_fn(T) -> int)
    requires
        0 <= i < s.len(),
        forall|j: int| 0 <= j < s.len() ==> f(#[trigger] s[j]) >= 0,
    ensures
        0 <= f(s[i]) <= sum_by(s, f),
    decreases s.len(),
{
    lemma_sum_nonnegative(s.drop_last(), f);
    if i < s.len() - 1 {
        lemma_sum_bounds(s.drop_last(), i, f);
    }
}

/// Where no item has a negative measure, the sum is not negative.
pub proof fn lemma_sum_nonnegative<T>(s: Seq<T>, f: spec_fn(T) -> int)
    requires
        forall|j: int| 0 <= j < s.len() ==> f(#[trigger] s[j]) >= 0,
    ensures
        0 <= sum_by(s, f),
    decreases s.len(),
{
    if s.len() > 0 {
        lemma_sum_nonnegative(s.drop_last(), f);
    }
}

/// The sum over the first `k + 1` items is the sum over the first `k` and
/// the measure of the next.
pub proof fn lemma_sum_take_step<T>(s: Seq<T>, k: int, f: spec_fn(T) -> int)
    requires
        0 <= k < s.len(),
    ensures
        sum_by(s.take(k + 1), f) == sum_by(s.take(k), f) + f(s[k]),
{
    assert(s.take(k + 1).drop_last() =~= s.take(k));
}

/// Where no item has a negative measure, the sum over the first `k` items
/// is at most the sum over all.
pub proof fn lemma_sum_take_le<T>(s: Seq<T>, k: int, f: spec_fn(T) -> int)
    requires
        0 <= k <= s.len(),
        forall|j: int| 0 <= j < s.len() ==> f(#[trigger] s[j]) >= 0,
    ensures
        sum_by(s.take(k), f) <= sum_by(s, f),
    decreases s.len() - k,
{
    if k == s.len() {
        assert(s.take(k) =~= s);
    } else {
        lemma_sum_take_step(s, k, f);
        lemma_sum_take_le(s, k + 1, f);
    }
}

/// Where `f` is `g` plus `c` times `h` on every item, the sums stand in the
/// same relation.
pub proof fn lemma_sum_linear<T>(
    s: Seq<T>,
    f: spec_fn(T) -> int,
    g: spec_fn(T) -> int,
    h: spec_fn(T) -> int,
    c: int,
)
    requires
        forall|j: int| 0 <= j < s.len() ==> f(#[trigger] s[j]) == g(s[j]) + c * h(s[j]),
    ensures
        sum_by(s, f) == sum_by(s, g) + c * sum_by(s, h),
    decreases s.len(),
{
    if s.len() > 0 {
        lemma_sum_linear(s.drop_last(), f, g, h, c);
        let a = sum_by(s.drop_last(), h);
        let b = h(s.last());
        assert(c * (a + b) == c * a + c * b) by (nonlinear_arith);
    }
}

} // verus!
