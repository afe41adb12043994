//! Lists of ids: membership, and what appending does to a list.

use vstd::prelude::*;

verus! {

/// Whether `id` occurs in `list`.
pub fn list_contains(list: &[u128], id: u128) -> (found: bool)
    ensures
        found == list@.contains(id),
{
    let mut i: usize = 0;
    while i < list.len()
        invariant
            i <= list.len(),
            forall|k: int| 0 <= k < i ==> list@[k] != id,
        decreases list.len() - i,
    {
        if list[i] == id {
            return true;
        }
        i += 1;
    }
    false
}

/// After appending `last`, a list holds what it held before and `last`.
pub proof fn lemma_push_contains<A>(list: Seq<A>, last: A, probe: A)
    ensures
        list.push(last).contains(probe) <==> list.contains(probe) || probe == last,
{
    if list.contains(probe) {
        let k = choose|k: int| 0 <= k < list.len() && list[k] == probe;
        assert(list.push(last)[k] == probe);
    }
    if probe == last {
        assert(list.push(last)[list.len() as int] == probe);
    }
}

/// Appending an element that a duplicate-free list lacks keeps it free of
/// duplicates.
pub proof fn lemma_push_no_duplicates<A>(list: Seq<A>, last: A)
    requires
        list.no_duplicates(),
        !list.contains(last),
    ensures
        list.push(last).no_duplicates(),
{
    let longer = list.push(last);
    assert forall|i: int, j: int|
        0 <= i < longer.len() && 0 <= j < longer.len() && i != j implies longer[i]
        != longer[j] by {
        if i < list.len() {
            assert(list.contains(list[i]));
        }
        if j < list.len() {
            assert(list.contains(list[j]));
        }
    }
}

/// A finite set that holds every id below `count` holds at least `count`
/// ids.
pub proof fn lemma_ids_below(ids: Set<u128>, count: nat)
    requires
        ids.finite(),
        count <= u128::MAX,
        forall|id: u128| id < count ==> #[trigger] ids.contains(id),
    ensures
        count <= ids.len(),
    decreases count,
{
    if count > 0 {
        let last = (count - 1) as u128;
        assert(ids.contains(last));
        lemma_ids_below(ids.remove(last), (count - 1) as nat);
    }
}

/// In a duplicate-free list, the element at a position does not occur
/// before that position.
pub proof fn lemma_not_in_earlier_part<A>(list: Seq<A>, at: int)
    requires
        list.no_duplicates(),
        0 <= at < list.len(),
    ensures
        !list.subrange(0, at).contains(list[at]),
        list.subrange(0, at + 1) == list.subrange(0, at).push(list[at]),
{
    let before = list.subrange(0, at);
    if before.contains(list[at]) {
        let k = choose|k: int| 0 <= k < before.len() && before[k] == list[at];
        assert(list[k] == list[at]);
    }
    assert(list.subrange(0, at + 1) =~= before.push(list[at]));
}

} // verus!
