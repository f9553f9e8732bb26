//! Binary search over a slice sorted under a total order.
//!
//! The search keeps a half-open candidate interval `[left, right)`, probes its
//! midpoint and narrows the interval by the outcome of a three-way comparison.
//! Its result is pinned down exactly by [`outcome`], which follows the same
//! midpoints; on a sorted slice it finds the target exactly when the target
//! occurs. Among equal elements it returns whichever the midpoints reach first,
//! not necessarily the first or last of them.
use crate::order::{lemma_gt_ge, lemma_lt_le, matches_at, occurs, sorted};
use core::cmp::Ordering;
use vstd::laws_cmp::*;
use vstd::prelude::*;
use vstd::std_specs::cmp::OrdSpec;

verus! {

/// The result of probing the candidate interval `[lo, hi)` of `s` for `t`:
/// compare `t` with the midpoint, stop on equality, else go on in the half
/// that may still hold `t`.
pub open spec fn probe<T: Ord>(t: T, s: Seq<T>, lo: int, hi: int) -> Option<usize>
    decreases hi - lo,
{
    if 0 <= lo < hi <= s.len() {
        let mid = lo + (hi - lo) / 2;
        match t.cmp_spec(&s[mid]) {
            Ordering::Less => probe(t, s, lo, mid),
            Ordering::Greater => probe(t, s, mid + 1, hi),
            Ordering::Equal => Some(mid as usize),
        }
    } else {
        None
    }
}

/// The result of searching the whole of `s` for `t`.
pub open spec fn outcome<T: Ord>(t: T, s: Seq<T>) -> Option<usize> {
    probe(t, s, 0, s.len() as int)
}

/// An index that probing returns lies in the interval probed and holds an
/// element equal to the target, whether or not `s` is sorted.
pub proof fn lemma_probe_found<T: Ord>(t: T, s: Seq<T>, lo: int, hi: int)
    requires
        0 <= lo,
        hi <= s.len() <= usize::MAX,
    ensures
        probe(t, s, lo, hi) matches Some(i) ==> lo <= i < hi && matches_at(t, s, i as int),
    decreases hi - lo,
{
    if lo < hi {
        let mid = lo + (hi - lo) / 2;
        lemma_probe_found(t, s, lo, mid);
        lemma_probe_found(t, s, mid + 1, hi);
    }
}

/// On a sorted `s`, where every element left of `lo` is below `t` and every
/// element from `hi` on is above it, probing `[lo, hi)` misses only a `t` that
/// does not occur.
pub proof fn lemma_probe_complete<T: Ord>(t: T, s: Seq<T>, lo: int, hi: int)
    requires
        obeys_cmp::<T>(),
        sorted(s),
        0 <= lo <= hi <= s.len(),
        forall|k: int| 0 <= k < lo ==> #[trigger] t.cmp_spec(&s[k]) == Ordering::Greater,
        forall|k: int| hi <= k < s.len() ==> #[trigger] t.cmp_spec(&s[k]) == Ordering::Less,
    ensures
        probe(t, s, lo, hi) is None ==> !occurs(t, s),
    decreases hi - lo,
{
    if lo < hi {
        let mid = lo + (hi - lo) / 2;
        match t.cmp_spec(&s[mid]) {
            Ordering::Less => {
                assert forall|k: int| mid <= k < s.len() implies #[trigger] t.cmp_spec(&s[k])
                    == Ordering::Less by {
                    if k < hi && k != mid {
                        lemma_lt_le(t, s[mid], s[k]);
                    }
                }
                lemma_probe_complete(t, s, lo, mid);
            },
            Ordering::Greater => {
                assert forall|k: int| 0 <= k < mid + 1 implies #[trigger] t.cmp_spec(&s[k])
                    == Ordering::Greater by {
                    if lo <= k && k != mid {
                        lemma_gt_ge(t, s[mid], s[k]);
                    }
                }
                lemma_probe_complete(t, s, mid + 1, hi);
            },
            Ordering::Equal => {},
        }
    } else {
        if occurs(t, s) {
            let i = choose|i: int| #[trigger] matches_at(t, s, i);
            assert(t.cmp_spec(&s[i]) == Ordering::Equal);
        }
    }
}

/// On a sorted sequence, the search returns an index holding an element equal
/// to the target when the target occurs, and nothing when it does not.
pub proof fn lemma_outcome_correct<T: Ord>(t: T, s: Seq<T>)
    requires
        obeys_cmp::<T>(),
        sorted(s),
        s.len() <= usize::MAX,
    ensures
        outcome(t, s) matches Some(i) ==> matches_at(t, s, i as int),
        outcome(t, s) is None <==> !occurs(t, s),
{
    lemma_probe_found(t, s, 0, s.len() as int);
    lemma_probe_complete(t, s, 0, s.len() as int);
}

/// Searches the sorted slice `arr` for `target`, returning the index of an
/// element that compares equal to it, or `None` where there is none.
///
/// `arr` must be sorted non-descending for a `None` to mean that `target` is
/// absent; on an unsorted slice the result is still a valid index of an equal
/// element, or `None`. The slice is only read.
pub fn binary_search<T: Ord>(target: &T, arr: &[T]) -> (r: Option<usize>)
    ensures
        arr@.len() == 0 ==> r is None,
        r matches Some(i) ==> i < arr@.len(),
        T::obeys_cmp_spec() ==> r == outcome(*target, arr@),
        T::obeys_cmp_spec() ==> (r matches Some(i) ==> matches_at(*target, arr@, i as int)),
        obeys_cmp::<T>() && sorted(arr@) ==> (r is Some <==> occurs(*target, arr@)),
{
    let mut left: usize = 0;
    let mut right: usize = arr.len();
    proof {
        reveal(obeys_cmp_ord);
        lemma_probe_found(*target, arr@, 0, arr@.len() as int);
        if obeys_cmp::<T>() && sorted(arr@) {
            lemma_outcome_correct(*target, arr@);
        }
    }
    while left < right
        invariant
            left <= right <= arr@.len(),
            T::obeys_cmp_spec() ==> outcome(*target, arr@) == probe(
                *target,
                arr@,
                left as int,
                right as int,
            ),
        decreases right - left,
    {
        let mid = left + (right - left) / 2;
        match target.cmp(&arr[mid]) {
            Ordering::Less => right = mid,
            Ordering::Greater => left = mid + 1,
            Ordering::Equal => {
                proof {
                    reveal(obeys_cmp_ord);
                    if T::obeys_cmp_spec() {
                        assert(matches_at(*target, arr@, mid as int));
                    }
                }
                return Some(mid);
            },
        }
    }
    None
}

/// Two searches for the same target in the same slice give the same result,
/// for any type whose comparison follows its specification.
pub proof fn lemma_search_deterministic<T: Ord>(
    target: &T,
    arr: &[T],
    r1: Option<usize>,
    r2: Option<usize>,
)
    requires
        T::obeys_cmp_spec(),
        call_ensures(binary_search::<T>, (target, arr), r1),
        call_ensures(binary_search::<T>, (target, arr), r2),
    ensures
        r1 == r2,
{
}

/// The number of comparisons that probing `[lo, hi)` of `s` for `t` makes.
pub open spec fn probe_steps<T: Ord>(t: T, s: Seq<T>, lo: int, hi: int) -> nat
    decreases hi - lo,
{
    if 0 <= lo < hi <= s.len() {
        let mid = lo + (hi - lo) / 2;
        1 + match t.cmp_spec(&s[mid]) {
            Ordering::Less => probe_steps(t, s, lo, mid),
            Ordering::Greater => probe_steps(t, s, mid + 1, hi),
            Ordering::Equal => 0,
        }
    } else {
        0
    }
}

/// The number of binary digits of `n`: `floor(log2(n)) + 1` for `n > 0`.
pub open spec fn bit_length(n: nat) -> nat
    decreases n,
{
    if n == 0 {
        0
    } else {
        1 + bit_length(n / 2)
    }
}

/// A larger number has at least as many binary digits.
pub proof fn lemma_bit_length_monotone(a: nat, b: nat)
    requires
        a <= b,
    ensures
        bit_length(a) <= bit_length(b),
    decreases b,
{
    if a > 0 {
        lemma_bit_length_monotone(a / 2, b / 2);
    }
}

/// Each comparison leaves a candidate interval strictly shorter than the one
/// before, at most half as long, so probing an interval of length `n` makes
/// at most `floor(log2(n)) + 1` comparisons.
pub proof fn lemma_probe_steps_bound<T: Ord>(t: T, s: Seq<T>, lo: int, hi: int)
    requires
        0 <= lo <= hi <= s.len(),
    ensures
        probe_steps(t, s, lo, hi) <= bit_length((hi - lo) as nat),
    decreases hi - lo,
{
    if lo < hi {
        let n = (hi - lo) as nat;
        let mid = lo + (hi - lo) / 2;
        assert(mid - lo == n / 2);
        assert(hi - (mid + 1) <= n / 2);
        lemma_probe_steps_bound(t, s, lo, mid);
        lemma_probe_steps_bound(t, s, mid + 1, hi);
        lemma_bit_length_monotone((hi - (mid + 1)) as nat, n / 2);
    }
}

/// Searching a slice of length `n` makes at most `floor(log2(n)) + 1`
/// comparisons, and none when it is empty.
pub proof fn lemma_search_steps<T: Ord>(t: T, s: Seq<T>)
    ensures
        probe_steps(t, s, 0, s.len() as int) <= bit_length(s.len()),
        s.len() == 0 ==> probe_steps(t, s, 0, s.len() as int) == 0,
{
    lemma_probe_steps_bound(t, s, 0, s.len() as int);
}

} // verus!
