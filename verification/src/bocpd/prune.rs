//! Masked compaction of a population.
use vstd::prelude::*;

verus! {

/// The items whose mask entry is set, in the order they had.
pub open spec fn kept<T>(items: Seq<T>, mask: Seq<bool>) -> Seq<T>
    recommends
        mask.len() == items.len(),
    decreases items.len(),
{
    if items.len() == 0 || mask.len() == 0 {
        Seq::empty()
    } else if mask.last() {
        kept(items.drop_last(), mask.drop_last()).push(items.last())
    } else {
        kept(items.drop_last(), mask.drop_last())
    }
}

/// One more item and its mask entry extend what is kept by that item, or by
/// nothing.
pub proof fn lemma_kept_push<T>(items: Seq<T>, mask: Seq<bool>, item: T, keep: bool)
    requires
        mask.len() == items.len(),
    ensures
        kept(items.push(item), mask.push(keep)) == if keep {
            kept(items, mask).push(item)
        } else {
            kept(items, mask)
        },
{
    assert(items.push(item).drop_last() == items);
    assert(mask.push(keep).drop_last() == mask);
}

/// Removes the items that `keep` rejects by their index, in one pass that
/// leaves the survivors in the order they had.
pub fn retain_by<T, F: Fn(usize) -> bool>(items: &mut Vec<T>, keep: F)
    requires
        forall|i: usize| i < old(items).len() ==> call_requires(keep, (i,)),
    ensures
        exists|mask: Seq<bool>|
            {
                &&& mask.len() == old(items)@.len()
                &&& forall|i: int|
                    0 <= i < mask.len() ==> call_ensures(keep, (i as usize,), #[trigger] mask[i])
                &&& final(items)@ == kept(old(items)@, mask)
            },
{
    let mut taken: Vec<T> = Vec::new();
    core::mem::swap(items, &mut taken);
    let n = taken.len();
    let ghost all = taken@;
    let ghost mut mask: Seq<bool> = Seq::empty();
    let mut i: usize = 0;
    for item in it: taken
        invariant
            it.seq() == all,
            i == it.index(),
            i <= all.len() == n,
            mask.len() == i,
            forall|j: usize| j < all.len() ==> call_requires(keep, (j,)),
            forall|j: int| 0 <= j < i ==> call_ensures(keep, (j as usize,), #[trigger] mask[j]),
            items@ == kept(all.take(i as int), mask),
    {
        let b = keep(i);
        proof {
            lemma_kept_push(all.take(i as int), mask, item, b);
            assert(all.take(i as int).push(item) == all.take(i + 1));
            mask = mask.push(b);
        }
        if b {
            items.push(item);
        }
        i = i + 1;
    }
    proof {
        assert(all.take(i as int) == all);
    }
}

/// One mask keeps equally many of two sequences of one length.
pub proof fn lemma_kept_len<A, B>(left: Seq<A>, right: Seq<B>, mask: Seq<bool>)
    requires
        left.len() == right.len(),
    ensures
        kept(left, mask).len() == kept(right, mask).len(),
        kept(left, mask).len() <= left.len(),
    decreases left.len(),
{
    if left.len() > 0 && mask.len() > 0 {
        lemma_kept_len(left.drop_last(), right.drop_last(), mask.drop_last());
    }
}

/// A mask that is set throughout keeps everything.
pub proof fn lemma_kept_all<T>(items: Seq<T>, mask: Seq<bool>)
    requires
        mask.len() == items.len(),
        forall|i: int| 0 <= i < mask.len() ==> #[trigger] mask[i],
    ensures
        kept(items, mask) == items,
    decreases items.len(),
{
    if items.len() > 0 {
        lemma_kept_all(items.drop_last(), mask.drop_last());
        assert(items.drop_last().push(items.last()) == items);
    }
}

} // verus!
