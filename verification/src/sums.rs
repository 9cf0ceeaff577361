//! Sums of integer sequences, and the small algebra of lemmas about them
//! that the sliding-window statistics rest on.
use vstd::prelude::*;

verus! {

/// Mathematical sum of a sequence of machine integers.
pub open spec fn sum64(s: Seq<i64>) -> int
    decreases s.len(),
{
    if s.len() == 0 {
        0
    } else {
        sum64(s.drop_last()) + s.last()
    }
}

/// Appending one element adds exactly that element to the sum.
pub proof fn lemma_sum64_push(s: Seq<i64>, v: i64)
    ensures
        sum64(s.push(v)) == sum64(s) + v,
{
    assert(s.push(v).drop_last() =~= s);
    assert(s.push(v).last() == v);
}

/// A sum splits at any cut point: the whole is the sum of the first `i`
/// elements plus the sum of the rest.
pub proof fn lemma_sum64_take_skip(s: Seq<i64>, i: int)
    requires
        0 <= i <= s.len(),
    ensures
        sum64(s) == sum64(s.take(i)) + sum64(s.skip(i)),
    decreases s.len(),
{
    if i == s.len() {
        assert(s.take(i) =~= s);
        assert(s.skip(i) =~= Seq::<i64>::empty());
    } else {
        let d = s.drop_last();
        lemma_sum64_take_skip(d, i);
        assert(d.take(i) =~= s.take(i));
        assert(s.skip(i) =~= d.skip(i).push(s.last()));
        lemma_sum64_push(d.skip(i), s.last());
    }
}

/// A sequence of non-negative elements has a non-negative sum.
pub proof fn lemma_sum64_nonneg(s: Seq<i64>)
    requires
        forall|i: int| 0 <= i < s.len() ==> s[i] >= 0,
    ensures
        sum64(s) >= 0,
    decreases s.len(),
{
    if s.len() > 0 {
        lemma_sum64_nonneg(s.drop_last());
    }
}

/// Peeling the first element off a non-empty sequence peels it off the sum.
pub proof fn lemma_sum64_first(s: Seq<i64>)
    requires
        s.len() >= 1,
    ensures
        sum64(s) == s[0] + sum64(s.skip(1)),
{
    lemma_sum64_take_skip(s, 1);
    assert(s.take(1).drop_last() =~= Seq::<i64>::empty());
    assert(s.take(1).last() == s[0]);
    assert(sum64(s.take(1)) == sum64(s.take(1).drop_last()) + s.take(1).last());
    assert(sum64(Seq::<i64>::empty()) == 0);
}

} // verus!
