//! Facts about sequences that loops over them need.

use vstd::prelude::*;

verus! {

/// Filtering one more item keeps it exactly if it passes.
pub proof fn lemma_filter_next<A>(items: Seq<A>, keep: spec_fn(A) -> bool, i: int)
    requires
        0 <= i < items.len(),
    ensures
        items.take(i + 1).filter(keep) == (if keep(items[i]) {
            items.take(i).filter(keep).push(items[i])
        } else {
            items.take(i).filter(keep)
        }),
{
    reveal(Seq::filter);
    assert(items.take(i + 1).drop_last() =~= items.take(i));
}

/// Taking everything is the sequence itself.
pub proof fn lemma_take_all<A>(items: Seq<A>)
    ensures
        items.take(items.len() as int) == items,
{
    assert(items.take(items.len() as int) =~= items);
}

/// Taking nothing leaves nothing to filter.
pub proof fn lemma_filter_none<A>(items: Seq<A>, keep: spec_fn(A) -> bool)
    ensures
        items.take(0).filter(keep) == Seq::<A>::empty(),
{
    reveal(Seq::filter);
    assert(items.take(0) =~= Seq::<A>::empty());
}

/// Choosing from two sequences in a row is choosing from each.
pub proof fn lemma_filter_map_concat<A, B>(a: Seq<A>, b: Seq<A>, f: spec_fn(A) -> Option<B>)
    ensures
        (a + b).filter_map(f) == a.filter_map(f) + b.filter_map(f),
    decreases b.len(),
{
    if b.len() == 0 {
        assert(a + b =~= a);
        assert(b.filter_map(f) =~= Seq::empty());
    } else {
        lemma_filter_map_concat(a, b.drop_last(), f);
        assert((a + b).drop_last() =~= a + b.drop_last());
        assert((a + b).last() == b.last());
    }
    assert((a + b).filter_map(f) =~= a.filter_map(f) + b.filter_map(f));
}

/// What is chosen from an item is among what is chosen.
pub proof fn lemma_filter_map_holds<A, B>(items: Seq<A>, f: spec_fn(A) -> Option<B>, item: A)
    requires
        items.contains(item),
        f(item) is Some,
    ensures
        items.filter_map(f).contains(f(item)->0),
    decreases items.len(),
{
    let rest = items.drop_last();
    let last = items.last();
    if last == item {
        let all = items.filter_map(f);
        assert(all == rest.filter_map(f) + seq![f(item)->0]);
        assert(all[all.len() - 1] == f(item)->0);
    } else {
        let at = choose|i: int| 0 <= i < items.len() && items[i] == item;
        assert(rest[at] == item);
        lemma_filter_map_holds(rest, f, item);
        let found = choose|i: int|
            0 <= i < rest.filter_map(f).len() && rest.filter_map(f)[i] == f(item)->0;
        assert(items.filter_map(f)[found] == f(item)->0);
    }
}

/// Two orders of the same items, mapped, are two orders of the same results.
pub proof fn lemma_map_reordered<A, B>(a: Seq<A>, b: Seq<A>, f: spec_fn(A) -> B)
    requires
        a.to_multiset() == b.to_multiset(),
    ensures
        a.map_values(f).to_multiset() == b.map_values(f).to_multiset(),
    decreases a.len(),
{
    broadcast use vstd::seq_lib::group_to_multiset_ensures;

    assert(a.len() == a.to_multiset().len() && b.len() == b.to_multiset().len());
    if a.len() == 0 {
        assert(a.map_values(f) =~= b.map_values(f));
    } else {
        let last = a.last();
        let rest = a.drop_last();
        assert(a =~= rest.push(last));
        assert(a.contains(last));
        assert(b.to_multiset().count(last) > 0);
        let at = choose|i: int| 0 <= i < b.len() && b[i] == last;
        let others = b.remove(at);
        assert(others.to_multiset() =~= b.to_multiset().remove(last));
        assert(rest.to_multiset() =~= others.to_multiset());
        lemma_map_reordered(rest, others, f);
        assert(a.map_values(f) =~= rest.map_values(f).push(f(last)));
        assert(b.map_values(f).remove(at) =~= others.map_values(f));
        assert(b.map_values(f)[at] == f(last));
        assert(b.map_values(f).contains(f(last)));
        assert(b.map_values(f).to_multiset() =~= others.map_values(f).to_multiset().insert(
            f(last),
        ));
    }
}

/// Two sequences without repetitions that hold the same items are two orders of
/// them.
pub proof fn lemma_same_items_reordered<A>(a: Seq<A>, b: Seq<A>)
    requires
        a.no_duplicates(),
        b.no_duplicates(),
        forall|item: A| a.contains(item) <==> #[trigger] b.contains(item),
    ensures
        a.to_multiset() == b.to_multiset(),
{
    broadcast use vstd::seq_lib::group_to_multiset_ensures;

    a.lemma_multiset_has_no_duplicates();
    b.lemma_multiset_has_no_duplicates();
    assert forall|item: A| a.to_multiset().count(item) == b.to_multiset().count(item) by {
        assert(a.contains(item) <==> b.contains(item));
        assert(a.contains(item) <==> a.to_multiset().count(item) > 0);
        assert(b.contains(item) <==> b.to_multiset().count(item) > 0);
    }
    assert(a.to_multiset() =~= b.to_multiset());
}

/// Two items that pass stay in order when a sequence is filtered.
pub proof fn lemma_filter_keeps_order<A>(items: Seq<A>, keep: spec_fn(A) -> bool, a: int, b: int)
    requires
        0 <= a < b < items.len(),
        keep(items[a]),
        keep(items[b]),
    ensures
        exists|i: int, j: int|
            0 <= i < j < items.filter(keep).len() && #[trigger] items.filter(keep)[i] == items[a]
                && #[trigger] items.filter(keep)[j] == items[b],
    decreases items.len(),
{
    reveal(Seq::filter);
    let rest = items.drop_last();
    let kept = items.filter(keep);
    let fewer = rest.filter(keep);
    if b < items.len() - 1 {
        lemma_filter_keeps_order(rest, keep, a, b);
        let (i, j) = choose|i: int, j: int|
            0 <= i < j < fewer.len() && #[trigger] fewer[i] == rest[a] && #[trigger] fewer[j]
                == rest[b];
        assert(kept[i] == items[a] && kept[j] == items[b]);
    } else {
        assert(rest[a] == items[a]);
        rest.lemma_filter_contains(keep, a);
        let i = choose|i: int| 0 <= i < fewer.len() && fewer[i] == rest[a];
        assert(kept == fewer.push(items[b]));
        assert(kept[i] == items[a] && kept[fewer.len() as int] == items[b]);
    }
}

/// What is left of a sequence once it was filtered comes in the order it had, each
/// item from a place of its own.
pub proof fn lemma_filter_adds_no_order<A>(
    items: Seq<A>,
    keep: spec_fn(A) -> bool,
    i: int,
    j: int,
)
    requires
        0 <= i < j < items.filter(keep).len(),
    ensures
        exists|a: int, b: int|
            0 <= a < b < items.len() && #[trigger] items[a] == items.filter(keep)[i]
                && #[trigger] items[b] == items.filter(keep)[j],
    decreases items.len(),
{
    reveal(Seq::filter);
    let rest = items.drop_last();
    let kept = items.filter(keep);
    let fewer = rest.filter(keep);
    if j < fewer.len() {
        lemma_filter_adds_no_order(rest, keep, i, j);
        let (a, b) = choose|a: int, b: int|
            0 <= a < b < rest.len() && #[trigger] rest[a] == fewer[i] && #[trigger] rest[b]
                == fewer[j];
        assert(items[a] == kept[i] && items[b] == kept[j]);
    } else {
        assert(kept == fewer.push(items.last()));
        assert(fewer.contains(fewer[i]));
        rest.lemma_filter_contains_rev(keep, fewer[i]);
        let a = choose|a: int| 0 <= a < rest.len() && rest[a] == fewer[i];
        assert(items[a] == kept[i] && items[items.len() - 1] == kept[j]);
    }
}

} // verus!
