//! Facts about sequences that several proofs share.

use vstd::prelude::*;

verus! {

/// The set of a sequence with one more item is the set of the sequence with
/// that item inserted.
pub proof fn lemma_push_to_set<A>(items: Seq<A>, item: A)
    ensures
        items.push(item).to_set() == items.to_set().insert(item),
{
    let longer = items.push(item);
    assert forall|other: A|
        longer.to_set().contains(other) == items.to_set().insert(item).contains(other) by {
        if longer.contains(other) {
            let i = choose|i: int| 0 <= i < longer.len() && longer[i] == other;
            if i < items.len() {
                assert(items[i] == other);
            }
        }
        if items.contains(other) {
            let i = choose|i: int| 0 <= i < items.len() && items[i] == other;
            assert(longer[i] == other);
        }
        if other == item {
            assert(longer[items.len() as int] == item);
        }
    }
    assert(longer.to_set() =~= items.to_set().insert(item));
}

/// The set of two sequences laid end to end is the union of their sets.
pub proof fn lemma_add_to_set<A>(first: Seq<A>, second: Seq<A>)
    ensures
        (first + second).to_set() == first.to_set() + second.to_set(),
{
    let both = first + second;
    assert forall|other: A|
        both.to_set().contains(other) == (first.to_set() + second.to_set()).contains(other) by {
        if both.contains(other) {
            let i = choose|i: int| 0 <= i < both.len() && both[i] == other;
            if i < first.len() {
                assert(first[i] == other);
            } else {
                assert(second[i - first.len()] == other);
            }
        }
        if first.contains(other) {
            let i = choose|i: int| 0 <= i < first.len() && first[i] == other;
            assert(both[i] == other);
        }
        if second.contains(other) {
            let i = choose|i: int| 0 <= i < second.len() && second[i] == other;
            assert(both[first.len() + i] == other);
        }
    }
    assert(both.to_set() =~= first.to_set() + second.to_set());
}

} // verus!
