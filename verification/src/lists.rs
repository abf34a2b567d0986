//! Lists of lists.

use vstd::prelude::*;

verus! {

/// Lists one behind the other.
pub open spec fn joined<T>(lists: Seq<Seq<T>>) -> Seq<T>
    decreases lists.len(),
{
    if lists.len() == 0 {
        Seq::empty()
    } else {
        joined(lists.drop_last()) + lists.last()
    }
}

/// Lists joined in two steps.
pub proof fn lemma_joined_append<T>(a: Seq<Seq<T>>, b: Seq<Seq<T>>)
    ensures
        joined(a + b) == joined(a) + joined(b),
    decreases b.len(),
{
    if b.len() == 0 {
        assert(a + b =~= a);
        assert(joined(a) + joined(b) =~= joined(a));
    } else {
        lemma_joined_append(a, b.drop_last());
        assert((a + b).drop_last() =~= a + b.drop_last());
        assert(joined(a + b) =~= joined(a) + joined(b));
    }
}

/// What stands in joined lists stands in one of them.
pub proof fn lemma_joined_member<T>(lists: Seq<Seq<T>>, k: int) -> (r: (int, int))
    requires
        0 <= k < joined(lists).len(),
    ensures
        0 <= r.0 < lists.len(),
        0 <= r.1 < lists[r.0].len(),
        lists[r.0][r.1] == joined(lists)[k],
    decreases lists.len(),
{
    let n = joined(lists.drop_last()).len();
    if k < n {
        lemma_joined_member(lists.drop_last(), k)
    } else {
        (lists.len() - 1, k - n)
    }
}

/// Lists joined with one more behind them.
pub proof fn lemma_joined_push<T>(a: Seq<Seq<T>>, b: Seq<T>)
    ensures
        joined(a.push(b)) == joined(a) + b,
{
    assert(a.push(b).drop_last() =~= a);
}

/// The same list.
pub(crate) fn copied<T: Copy>(xs: &Vec<T>) -> (r: Vec<T>)
    ensures
        r@ == xs@,
{
    let mut copy: Vec<T> = Vec::new();
    let mut i: usize = 0;
    while i < xs.len()
        invariant
            i <= xs@.len(),
            copy@ == xs@.take(i as int),
        decreases xs@.len() - i,
    {
        copy.push(xs[i]);
        i += 1;
        assert(copy@ =~= xs@.take(i as int));
    }
    assert(copy@ =~= xs@);
    copy
}

} // verus!
