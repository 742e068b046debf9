//! Sums over sequences, and the proportions that amounts are split by.

use vstd::prelude::*;

verus! {

/// The sum of `f` over the items of a sequence.
pub open spec fn sum_by<T>(s: Seq<T>, f: spec_fn(T) -> int) -> int
    decreases s.len(),
{
    if s.len() == 0 {
        0
    } else {
        sum_by(s.drop_last(), f) + f(s.last())
    }
}

/// Appending an item adds its value to the sum.
pub proof fn lemma_sum_by_push<T>(s: Seq<T>, x: T, f: spec_fn(T) -> int)
    ensures
        sum_by(s.push(x), f) == sum_by(s, f) + f(x),
{
    assert(s.push(x).drop_last() =~= s);
}

/// The sum of a concatenation is the sum of the sums.
pub proof fn lemma_sum_by_concat<T>(a: Seq<T>, b: Seq<T>, f: spec_fn(T) -> int)
    ensures
        sum_by(a + b, f) == sum_by(a, f) + sum_by(b, f),
    decreases b.len(),
{
    if b.len() == 0 {
        assert(a + b =~= a);
    } else {
        lemma_sum_by_concat(a, b.drop_last(), f);
        assert((a + b).drop_last() =~= a + b.drop_last());
    }
}

/// The sum splits at any position.
pub proof fn lemma_sum_by_split<T>(s: Seq<T>, i: int, f: spec_fn(T) -> int)
    requires
        0 <= i <= s.len(),
    ensures
        sum_by(s, f) == sum_by(s.take(i), f) + sum_by(s.skip(i), f),
{
    lemma_sum_by_concat(s.take(i), s.skip(i), f);
    assert(s.take(i) + s.skip(i) =~= s);
}

/// One more item of a prefix adds that item's value.
pub proof fn lemma_sum_by_take_next<T>(s: Seq<T>, i: int, f: spec_fn(T) -> int)
    requires
        0 <= i < s.len(),
    ensures
        sum_by(s.take(i + 1), f) == sum_by(s.take(i), f) + f(s[i]),
{
    assert(s.take(i + 1).drop_last() =~= s.take(i));
}

/// Where no value is negative, no sum is.
pub proof fn lemma_sum_by_nonnegative<T>(s: Seq<T>, f: spec_fn(T) -> int)
    requires
        forall|x: T| #[trigger] f(x) >= 0,
    ensures
        sum_by(s, f) >= 0,
    decreases s.len(),
{
    if s.len() > 0 {
        lemma_sum_by_nonnegative(s.drop_last(), f);
    }
}

/// Where no value is negative, a prefix sums to no more than the whole.
pub proof fn lemma_sum_by_prefix_le<T>(s: Seq<T>, i: int, f: spec_fn(T) -> int)
    requires
        0 <= i <= s.len(),
        forall|x: T| #[trigger] f(x) >= 0,
    ensures
        sum_by(s.take(i), f) <= sum_by(s, f),
{
    lemma_sum_by_split(s, i, f);
    lemma_sum_by_nonnegative(s.skip(i), f);
}

/// Taking an item out takes its value off the sum.
pub proof fn lemma_sum_by_remove<T>(s: Seq<T>, i: int, f: spec_fn(T) -> int)
    requires
        0 <= i < s.len(),
    ensures
        sum_by(s.remove(i), f) == sum_by(s, f) - f(s[i]),
{
    lemma_sum_by_split(s, i, f);
    lemma_sum_by_split(s, i + 1, f);
    lemma_sum_by_take_next(s, i, f);
    lemma_sum_by_concat(s.take(i), s.skip(i + 1), f);
    assert(s.remove(i) =~= s.take(i) + s.skip(i + 1));
}

/// Replacing an item replaces its value in the sum.
pub proof fn lemma_sum_by_update<T>(s: Seq<T>, i: int, x: T, f: spec_fn(T) -> int)
    requires
        0 <= i < s.len(),
    ensures
        sum_by(s.update(i, x), f) == sum_by(s, f) - f(s[i]) + f(x),
{
    let t = s.update(i, x);
    lemma_sum_by_split(s, i, f);
    lemma_sum_by_split(s, i + 1, f);
    lemma_sum_by_take_next(s, i, f);
    lemma_sum_by_split(t, i, f);
    lemma_sum_by_split(t, i + 1, f);
    lemma_sum_by_take_next(t, i, f);
    assert(t.take(i) =~= s.take(i));
    assert(t.skip(i + 1) =~= s.skip(i + 1));
}


/// `a * b / c`, rounded down, where it fits in 64 bits.
pub fn mul_div(a: u64, b: u64, c: u64) -> (quotient: Option<u64>)
    requires
        c > 0,
    ensures
        match quotient {
            Some(q) => q == a * b / (c as int),
            None => a * b / (c as int) > u64::MAX,
        },
{
    assert(a * b <= 0xffff_ffff_ffff_ffff * 0xffff_ffff_ffff_ffff) by (nonlinear_arith)
        requires
            a <= 0xffff_ffff_ffff_ffff,
            b <= 0xffff_ffff_ffff_ffff,
    ;
    let product: u128 = (a as u128) * (b as u128);
    let q: u128 = product / (c as u128);
    if q > u64::MAX as u128 {
        None
    } else {
        Some(q as u64)
    }
}

/// A quotient is no more than what was divided, and no less than nothing.
pub proof fn lemma_div_bounds(x: int, d: int)
    requires
        0 <= x,
        0 < d,
    ensures
        0 <= x / d <= x,
{
    vstd::arithmetic::div_mod::lemma_div_pos_is_pos(x, d);
    vstd::arithmetic::div_mod::lemma_div_is_ordered_by_denominator(x, 1, d);
    vstd::arithmetic::div_mod::lemma_div_basics(x);
}

} // verus!
