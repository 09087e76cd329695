use vstd::prelude::*;

use std::hash::Hash;
use vstd::laws_eq::obeys_concrete_eq;
use vstd::std_specs::cmp::PartialEqSpec;

verus! {

/// The elements of `items` that do not equal an earlier element, in order.
pub open spec fn first_occurrences<T: PartialEq>(items: Seq<T>) -> Seq<T>
    decreases items.len(),
{
    if items.len() == 0 {
        Seq::empty()
    } else {
        let kept = first_occurrences(items.drop_last());
        if exists|i: int| 0 <= i < kept.len() && (#[trigger] kept[i]).eq_spec(&items.last()) {
            kept
        } else {
            kept.push(items.last())
        }
    }
}

/// Remove duplicates from a list.
///
/// This function is used to remove duplicate ids before loading the models they point at. Each
/// value is kept where it first occurs.
pub fn unique<T: Hash + Eq>(items: Vec<T>) -> (unique_items: Vec<T>)
    ensures
        T::obeys_eq_spec() ==> unique_items@ == first_occurrences(items@),
{
    let ghost all = items@;
    let mut unique_items: Vec<T> = Vec::new();
    for item in it: items
        invariant
            it.seq() == all,
            T::obeys_eq_spec() ==> unique_items@ == first_occurrences(all.take(it.index() as int)),
    {
        let mut seen = false;
        let mut j: usize = 0;
        while !seen && j < unique_items.len()
            invariant
                j <= unique_items@.len(),
                T::obeys_eq_spec() ==> (seen ==> j < unique_items@.len()
                    && unique_items@[j as int].eq_spec(&item)),
                T::obeys_eq_spec() ==> forall|i: int|
                    0 <= i < j ==> !(#[trigger] unique_items@[i]).eq_spec(&item),
            decreases unique_items@.len() - j + (if seen { 0int } else { 1int }),
        {
            if unique_items[j] == item {
                seen = true;
            } else {
                j = j + 1;
            }
        }
        proof {
            let prefix = all.take(it.index() + 1);
            assert(prefix.drop_last() =~= all.take(it.index() as int));
            assert(prefix.last() == item);
        }
        if !seen {
            unique_items.push(item);
        }
    }
    assert(all.take(all.len() as int) =~= all);
    unique_items
}


/// No value occurs twice among the values `unique` keeps.
pub proof fn lemma_unique_has_no_duplicates<T: PartialEq>(items: Seq<T>)
    requires
        obeys_concrete_eq::<T>(),
    ensures
        first_occurrences(items).no_duplicates(),
    decreases items.len(),
{
    reveal(obeys_concrete_eq);
    if items.len() > 0 {
        lemma_unique_has_no_duplicates(items.drop_last());
        let kept = first_occurrences(items.drop_last());
        if !(exists|i: int| 0 <= i < kept.len() && (#[trigger] kept[i]).eq_spec(&items.last())) {
            assert forall|i: int| 0 <= i < kept.len() implies kept[i] != items.last() by {
                assert(!kept[i].eq_spec(&items.last()));
            }
        }
    }
}

/// `unique` keeps exactly the values that occur in the list: it drops none and adds none.
pub proof fn lemma_unique_keeps_every_value<T: PartialEq>(items: Seq<T>)
    requires
        obeys_concrete_eq::<T>(),
    ensures
        first_occurrences(items).to_set() == items.to_set(),
{
    lemma_unique_contains(items);
    assert(first_occurrences(items).to_set() =~= items.to_set());
}

proof fn lemma_unique_contains<T: PartialEq>(items: Seq<T>)
    requires
        obeys_concrete_eq::<T>(),
    ensures
        forall|x: T| first_occurrences(items).contains(x) <==> items.contains(x),
    decreases items.len(),
{
    reveal(obeys_concrete_eq);
    if items.len() > 0 {
        let earlier = items.drop_last();
        let last = items.last();
        lemma_unique_contains(earlier);
        let kept = first_occurrences(earlier);
        assert forall|x: T| items.contains(x) <==> (earlier.contains(x) || x == last) by {
            if items.contains(x) {
                let j = choose|j: int| 0 <= j < items.len() && items[j] == x;
                if j < earlier.len() {
                    assert(earlier[j] == x);
                }
            }
            if earlier.contains(x) {
                let e = choose|e: int| 0 <= e < earlier.len() && earlier[e] == x;
                assert(items[e] == x);
            }
            if x == last {
                assert(items[items.len() - 1] == x);
            }
        }
        if exists|i: int| 0 <= i < kept.len() && (#[trigger] kept[i]).eq_spec(&last) {
            let i = choose|i: int| 0 <= i < kept.len() && (#[trigger] kept[i]).eq_spec(&last);
            assert(kept.contains(last) && kept[i] == last);
        } else {
            let grown = kept.push(last);
            assert forall|x: T| grown.contains(x) <==> (kept.contains(x) || x == last) by {
                if grown.contains(x) {
                    let j = choose|j: int| 0 <= j < grown.len() && grown[j] == x;
                    if j < kept.len() {
                        assert(kept[j] == x);
                    }
                }
                if kept.contains(x) {
                    let k = choose|k: int| 0 <= k < kept.len() && kept[k] == x;
                    assert(grown[k] == x);
                }
                if x == last {
                    assert(grown[kept.len() as int] == x);
                }
            }
        }
    }
}

/// Removing duplicates a second time changes nothing.
pub proof fn lemma_unique_is_idempotent<T: PartialEq>(items: Seq<T>)
    requires
        obeys_concrete_eq::<T>(),
    ensures
        first_occurrences(first_occurrences(items)) == first_occurrences(items),
{
    lemma_unique_has_no_duplicates(items);
    lemma_no_duplicates_kept(first_occurrences(items));
}

/// A list without duplicates is kept whole.
proof fn lemma_no_duplicates_kept<T: PartialEq>(items: Seq<T>)
    requires
        obeys_concrete_eq::<T>(),
        items.no_duplicates(),
    ensures
        first_occurrences(items) == items,
    decreases items.len(),
{
    reveal(obeys_concrete_eq);
    if items.len() > 0 {
        let earlier = items.drop_last();
        assert(earlier.no_duplicates());
        lemma_no_duplicates_kept(earlier);
        assert forall|i: int| 0 <= i < earlier.len() implies !(#[trigger] earlier[i]).eq_spec(
            &items.last(),
        ) by {
            assert(items[i] != items[items.len() - 1]);
        }
        assert(items =~= earlier.push(items.last()));
    }
}

} // verus!
