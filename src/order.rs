//! Facts about the three-way comparison of a type whose `Ord` obeys the
//! laws of a total order.
use core::cmp::Ordering;
use vstd::laws_cmp::*;
use vstd::laws_eq::*;
use vstd::prelude::*;
use vstd::std_specs::cmp::{OrdSpec, PartialEqSpec, PartialOrdSpec};

verus! {

/// `s` is sorted non-descending: no earlier element compares greater than a later one.
pub open spec fn sorted<T: Ord>(s: Seq<T>) -> bool {
    forall|i: int, j: int|
        0 <= i < j < s.len() ==> #[trigger] s[i].cmp_spec(&s[j]) != Ordering::Greater
}

/// Position `i` of `s` holds an element equal to `t` under the order.
pub open spec fn matches_at<T: Ord>(t: T, s: Seq<T>, i: int) -> bool {
    0 <= i < s.len() && t.cmp_spec(&s[i]) == Ordering::Equal
}

/// Some element of `s` is equal to `t` under the order.
pub open spec fn occurs<T: Ord>(t: T, s: Seq<T>) -> bool {
    exists|i: int| #[trigger] matches_at(t, s, i)
}

/// If `a < b` and `b <= c`, then `a < c`.
pub proof fn lemma_lt_le<T: Ord>(a: T, b: T, c: T)
    requires
        obeys_cmp::<T>(),
        a.cmp_spec(&b) == Ordering::Less,
        b.cmp_spec(&c) != Ordering::Greater,
    ensures
        a.cmp_spec(&c) == Ordering::Less,
{
    reveal(obeys_cmp_ord);
    reveal(obeys_cmp_partial_ord);
    reveal(obeys_partial_cmp_spec_properties);
    reveal(obeys_eq_spec_properties);
    assert(a.partial_cmp_spec(&b) == Some(a.cmp_spec(&b)));
    assert(b.partial_cmp_spec(&c) == Some(b.cmp_spec(&c)));
    assert(a.partial_cmp_spec(&c) == Some(a.cmp_spec(&c)));
    if b.cmp_spec(&c) == Ordering::Equal {
        assert(b.eq_spec(&c));
        if a.cmp_spec(&c) == Ordering::Equal {
            assert(a.eq_spec(&c));
            assert(c.eq_spec(&b));
            assert(a.eq_spec(&b));
        } else if a.cmp_spec(&c) == Ordering::Greater {
            assert(c.partial_cmp_spec(&a) == Some(Ordering::Less));
            assert(c.partial_cmp_spec(&b) == Some(Ordering::Less));
            assert(c.partial_cmp_spec(&b) == Some(c.cmp_spec(&b)));
            assert(c.eq_spec(&b));
        }
    }
}

/// If `a <= b` and `b < c`, then `a < c`.
pub proof fn lemma_le_lt<T: Ord>(a: T, b: T, c: T)
    requires
        obeys_cmp::<T>(),
        a.cmp_spec(&b) != Ordering::Greater,
        b.cmp_spec(&c) == Ordering::Less,
    ensures
        a.cmp_spec(&c) == Ordering::Less,
{
    reveal(obeys_cmp_ord);
    reveal(obeys_cmp_partial_ord);
    reveal(obeys_partial_cmp_spec_properties);
    reveal(obeys_eq_spec_properties);
    assert(a.partial_cmp_spec(&b) == Some(a.cmp_spec(&b)));
    assert(b.partial_cmp_spec(&c) == Some(b.cmp_spec(&c)));
    assert(a.partial_cmp_spec(&c) == Some(a.cmp_spec(&c)));
    if a.cmp_spec(&b) == Ordering::Equal {
        assert(a.eq_spec(&b));
        if a.cmp_spec(&c) == Ordering::Equal {
            assert(a.eq_spec(&c));
            assert(b.eq_spec(&a));
            assert(b.eq_spec(&c));
        } else if a.cmp_spec(&c) == Ordering::Greater {
            assert(c.partial_cmp_spec(&a) == Some(Ordering::Less));
            assert(c.partial_cmp_spec(&b) == Some(Ordering::Greater));
            assert(c.partial_cmp_spec(&b) == Some(c.cmp_spec(&b)));
            assert(b.partial_cmp_spec(&a) == Some(b.cmp_spec(&a)));
            assert(b.eq_spec(&a));
        }
    }
}

/// If `a > b` and `c <= b`, then `a > c`.
pub proof fn lemma_gt_ge<T: Ord>(a: T, b: T, c: T)
    requires
        obeys_cmp::<T>(),
        a.cmp_spec(&b) == Ordering::Greater,
        c.cmp_spec(&b) != Ordering::Greater,
    ensures
        a.cmp_spec(&c) == Ordering::Greater,
{
    reveal(obeys_cmp_ord);
    reveal(obeys_partial_cmp_spec_properties);
    assert(a.partial_cmp_spec(&b) == Some(a.cmp_spec(&b)));
    assert(b.partial_cmp_spec(&a) == Some(b.cmp_spec(&a)));
    assert(b.cmp_spec(&a) == Ordering::Less);
    lemma_le_lt(c, b, a);
    assert(c.partial_cmp_spec(&a) == Some(c.cmp_spec(&a)));
    assert(a.partial_cmp_spec(&c) == Some(a.cmp_spec(&c)));
}

} // verus!
