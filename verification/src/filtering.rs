//! Filtering a list in place, one element after the other.

use vstd::prelude::*;

verus! {

/// Whether the first `i` elements of `list` are what is kept of the first `seen` elements of `all`,
/// and the others are the elements of `all` which were not looked at yet.
pub open spec fn filtered_so_far<A>(
    all: Seq<A>,
    list: Seq<A>,
    keep: spec_fn(A) -> bool,
    i: int,
    seen: int,
) -> bool {
    &&& 0 <= i <= list.len()
    &&& 0 <= seen <= all.len()
    &&& list.take(i) == all.take(seen).filter(keep)
    &&& list.skip(i) == all.skip(seen)
}

/// Before the first element nothing is kept.
pub proof fn lemma_filter_start<A>(all: Seq<A>, keep: spec_fn(A) -> bool)
    ensures
        filtered_so_far(all, all, keep, 0, 0),
{
    reveal(Seq::filter);
    assert(all.take(0) =~= Seq::empty());
    assert(all.take(0).filter(keep) =~= all.take(0));
}

/// The next element of the list is the next one which was not looked at. It stays where it is, or it
/// is removed.
pub proof fn lemma_filter_step<A>(
    all: Seq<A>,
    list: Seq<A>,
    keep: spec_fn(A) -> bool,
    i: int,
    seen: int,
)
    requires
        filtered_so_far(all, list, keep, i, seen),
        i < list.len(),
    ensures
        keep(list[i]) ==> filtered_so_far(all, list, keep, i + 1, seen + 1),
        !keep(list[i]) ==> filtered_so_far(all, list.remove(i), keep, i, seen + 1),
{
    reveal(Seq::filter);
    assert(list.skip(i).len() == list.len() - i);
    assert(all.skip(seen).len() == all.len() - seen);
    assert(list[i] == list.skip(i)[0]);
    assert(all[seen] == all.skip(seen)[0]);
    assert(all.take(seen + 1).drop_last() =~= all.take(seen));
    assert(all.skip(seen).drop_first() =~= all.skip(seen + 1));
    assert(list.skip(i).drop_first() =~= list.skip(i + 1));
    if keep(list[i]) {
        assert(list.take(i + 1) =~= list.take(i).push(list[i]));
    } else {
        assert(list.remove(i).take(i) =~= list.take(i));
        assert(list.remove(i).skip(i) =~= list.skip(i + 1));
    }
}

/// Behind the last element the list is what is kept of everything.
pub proof fn lemma_filter_end<A>(all: Seq<A>, list: Seq<A>, keep: spec_fn(A) -> bool, seen: int)
    requires
        filtered_so_far(all, list, keep, list.len() as int, seen),
    ensures
        list == all.filter(keep),
{
    assert(list.skip(list.len() as int).len() == 0);
    assert(all.skip(seen).len() == all.len() - seen);
    assert(list.take(list.len() as int) =~= list);
    assert(all.take(seen) =~= all);
}

/// Filtering a prefix gives a prefix of what filtering the whole gives.
pub proof fn lemma_filter_of_prefix<A>(all: Seq<A>, keep: spec_fn(A) -> bool, n: int)
    requires
        0 <= n <= all.len(),
    ensures
        all.take(n).filter(keep).len() <= all.filter(keep).len(),
        all.take(n).filter(keep) == all.filter(keep).take(all.take(n).filter(keep).len() as int),
    decreases all.len() - n,
{
    reveal(Seq::filter);
    if n < all.len() {
        lemma_filter_of_prefix(all, keep, n + 1);
        assert(all.take(n + 1).drop_last() =~= all.take(n));
        let shorter = all.take(n).filter(keep);
        let longer = all.take(n + 1).filter(keep);
        assert(shorter =~= longer.take(shorter.len() as int));
        assert(shorter =~= all.filter(keep).take(shorter.len() as int));
    } else {
        assert(all.take(n) =~= all);
        assert(all.filter(keep) =~= all.filter(keep).take(all.filter(keep).len() as int));
    }
}

} // verus!
