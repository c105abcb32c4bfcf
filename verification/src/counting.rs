//! How often something stands in a sequence.
use vstd::prelude::*;

verus! {

/// How many times `item` stands in `items`.
pub open spec fn times<A>(items: Seq<A>, item: A) -> nat
    decreases items.len(),
{
    if items.len() == 0 {
        0
    } else {
        times(items.drop_last(), item) + if items.last() == item {
            1nat
        } else {
            0nat
        }
    }
}

/// One more item at the end counts once, and only for itself.
pub proof fn lemma_times_push<A>(items: Seq<A>, last: A, item: A)
    ensures
        times(items.push(last), item) == times(items, item) + if last == item {
            1nat
        } else {
            0nat
        },
{
    assert(items.push(last).drop_last() =~= items);
}

/// What stands in both parts of a sequence is counted in both.
pub proof fn lemma_times_add<A>(first: Seq<A>, second: Seq<A>, item: A)
    ensures
        times(first + second, item) == times(first, item) + times(second, item),
    decreases second.len(),
{
    if second.len() == 0 {
        assert(first + second =~= first);
    } else {
        assert((first + second).drop_last() =~= first + second.drop_last());
        lemma_times_add(first, second.drop_last(), item);
    }
}

/// What is counted is there, and what is there is counted; nothing is counted
/// more often than the sequence is long.
pub proof fn lemma_times_bounds<A>(items: Seq<A>, item: A)
    ensures
        times(items, item) <= items.len(),
        times(items, item) > 0 <==> items.contains(item),
    decreases items.len(),
{
    if items.len() > 0 {
        let fewer = items.drop_last();
        lemma_times_bounds(fewer, item);
        if items.contains(item) && items.last() != item {
            let i = choose|i: int| 0 <= i < items.len() && items[i] == item;
            assert(fewer[i] == item);
        }
        if fewer.contains(item) {
            let i = choose|i: int| 0 <= i < fewer.len() && fewer[i] == item;
            assert(items[i] == item);
        }
    }
}

} // verus!
