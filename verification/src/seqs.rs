//! Searching and filtering sequences.

use vstd::prelude::*;

verus! {

/// `items[i]` is the first item with the property.
pub open spec fn is_first_where<A>(items: Seq<A>, p: spec_fn(A) -> bool, i: int) -> bool {
    &&& 0 <= i < items.len()
    &&& p(items[i])
    &&& forall|j: int| 0 <= j < i ==> !p(#[trigger] items[j])
}

/// Where the first item with the property stands.
pub open spec fn first_where<A>(items: Seq<A>, p: spec_fn(A) -> bool) -> Option<int> {
    if exists|i: int| is_first_where(items, p, i) {
        Some(choose|i: int| is_first_where(items, p, i))
    } else {
        None
    }
}

/// There is one first place.
pub proof fn lemma_first_where<A>(items: Seq<A>, p: spec_fn(A) -> bool, i: int)
    requires
        is_first_where(items, p, i),
    ensures
        first_where(items, p) == Some(i),
{
    let c = choose|c: int| is_first_where(items, p, c);
    assert(is_first_where(items, p, c));
    if c < i {
        assert(!p(items[c]));
    }
    if i < c {
        assert(!p(items[i]));
    }
}

/// Where no item has the property there is no first place.
pub proof fn lemma_none_where<A>(items: Seq<A>, p: spec_fn(A) -> bool)
    requires
        forall|j: int| 0 <= j < items.len() ==> !p(#[trigger] items[j]),
    ensures
        first_where(items, p) is None,
{
}

/// Where there is no first place no item has the property.
pub proof fn lemma_no_first_where<A>(items: Seq<A>, p: spec_fn(A) -> bool, i: int)
    requires
        first_where(items, p) is None,
        0 <= i < items.len(),
    ensures
        !p(items[i]),
    decreases i,
{
    if p(items[i]) {
        assert forall|j: int| 0 <= j < i implies !p(#[trigger] items[j]) by {
            lemma_no_first_where(items, p, j);
        }
        assert(is_first_where(items, p, i));
    }
}

/// What a filter does with one more item.
pub proof fn lemma_filter_step<A>(items: Seq<A>, p: spec_fn(A) -> bool, k: int)
    requires
        0 <= k < items.len(),
    ensures
        items.take(k + 1).filter(p) == (if p(items[k]) {
            items.take(k).filter(p).push(items[k])
        } else {
            items.take(k).filter(p)
        }),
{
    reveal(Seq::filter);
    assert(items.take(k + 1).drop_last() =~= items.take(k));
}

/// An item that is put into a list is one more item of it.
pub proof fn lemma_insert_multiset<A>(items: Seq<A>, at: int, x: A)
    requires
        0 <= at <= items.len(),
    ensures
        items.insert(at, x).to_multiset() == items.to_multiset().insert(x),
{
    let all = items.insert(at, x);
    all.to_multiset_ensures();
    assert(all.remove(at) =~= items);
    assert(all[at] == x);
    assert(all.contains(x));
    assert(all.to_multiset().count(x) > 0);
    assert(all.to_multiset() =~= items.to_multiset().insert(x));
}

/// An item at the end of a list is one more item of it.
pub proof fn lemma_push_multiset<A>(items: Seq<A>, x: A)
    ensures
        items.push(x).to_multiset() == items.to_multiset().insert(x),
{
    items.to_multiset_ensures();
}

/// Where an item is put in a sorted list: before the first item that it comes before.
pub open spec fn slot<A>(sorted: Seq<A>, less: spec_fn(A, A) -> bool, x: A) -> int {
    match first_where(sorted, |y: A| less(x, y)) {
        Some(i) => i,
        None => sorted.len() as int,
    }
}

/// The list in order, items that neither comes before the other in the order they had.
pub open spec fn sorted_by<A>(items: Seq<A>, less: spec_fn(A, A) -> bool) -> Seq<A>
    decreases items.len(),
{
    if items.len() == 0 {
        seq![]
    } else {
        let rest = sorted_by(items.drop_last(), less);
        rest.insert(slot(rest, less, items.last()), items.last())
    }
}

/// No item comes before one that stands ahead of it.
pub open spec fn in_order<A>(items: Seq<A>, less: spec_fn(A, A) -> bool) -> bool {
    forall|i: int, j: int|
        0 <= i <= j < items.len() ==> !less(#[trigger] items[j], #[trigger] items[i])
}

/// `less` is an order: nothing comes before itself, and what comes before what comes
/// before something comes before it.
pub open spec fn is_order<A>(less: spec_fn(A, A) -> bool) -> bool {
    &&& forall|x: A| !#[trigger] less(x, x)
    &&& forall|x: A, y: A, z: A| #[trigger] less(x, y) && #[trigger] less(y, z) ==> less(x, z)
}

/// An item fits where it is found to be the first place of an item after it.
pub proof fn lemma_slot<A>(sorted: Seq<A>, less: spec_fn(A, A) -> bool, x: A)
    requires
        is_order(less),
        in_order(sorted, less),
    ensures
        0 <= slot(sorted, less, x) <= sorted.len(),
        forall|i: int| 0 <= i < slot(sorted, less, x) ==> !less(x, #[trigger] sorted[i]),
        forall|i: int|
            slot(sorted, less, x) <= i < sorted.len() ==> !less(#[trigger] sorted[i], x),
        slot(sorted, less, x) < sorted.len() ==> less(x, sorted[slot(sorted, less, x)]),
{
    let at = slot(sorted, less, x);
    let after = |y: A| less(x, y);
    if first_where(sorted, after) is Some {
        assert(is_first_where(sorted, after, at));
    }
    assert forall|i: int| 0 <= i < at implies !less(x, #[trigger] sorted[i]) by {
        if first_where(sorted, after) is None {
            lemma_no_first_where(sorted, after, i);
        } else {
            assert(!after(sorted[i]));
        }
    }
    assert forall|i: int| at <= i < sorted.len() implies !less(#[trigger] sorted[i], x) by {
        assert(after(sorted[at]));
        if less(sorted[i], x) {
            assert(less(x, sorted[at]));
            assert(less(sorted[i], sorted[at]));
        }
    }
}

/// Sorting puts a list in order and keeps every item.
pub proof fn lemma_sorted_by<A>(items: Seq<A>, less: spec_fn(A, A) -> bool)
    requires
        is_order(less),
    ensures
        in_order(sorted_by(items, less), less),
        sorted_by(items, less).len() == items.len(),
        sorted_by(items, less).to_multiset() == items.to_multiset(),
    decreases items.len(),
{
    if items.len() == 0 {
        assert(sorted_by(items, less) =~= items);
    } else {
        let x = items.last();
        lemma_sorted_by(items.drop_last(), less);
        let rest = sorted_by(items.drop_last(), less);
        let at = slot(rest, less, x);
        lemma_slot(rest, less, x);
        let all = rest.insert(at, x);
        assert forall|i: int, j: int| 0 <= i <= j < all.len() implies !less(
            #[trigger] all[j],
            #[trigger] all[i],
        ) by {
            let a = if i < at {
                i
            } else {
                i - 1
            };
            let b = if j < at {
                j
            } else {
                j - 1
            };
            if i != at && j != at {
                assert(all[i] == rest[a] && all[j] == rest[b]);
            } else if i == at && j != at {
                assert(all[j] == rest[b]);
            } else if i != at {
                assert(all[i] == rest[a]);
            }
        }
        lemma_insert_multiset(rest, at, x);
        lemma_push_multiset(items.drop_last(), x);
        assert(items =~= items.drop_last().push(x));
    }
}

} // verus!
