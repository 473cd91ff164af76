//! Facts about sequences of identifiers that the proofs of the ledger use.

use vstd::prelude::*;
use crate::model::remove_id;
use crate::types::Id;

verus! {

/// Pushing an item that a sequence lacks keeps it free of duplicates, and
/// adds that item and no other.
pub proof fn lemma_push(items: Seq<Id>, id: Id)
    requires
        items.no_duplicates(),
        !items.contains(id),
    ensures
        items.push(id).no_duplicates(),
        items.push(id).contains(id),
        forall|other: Id|
            #![trigger items.push(id).contains(other)]
            #![trigger items.contains(other)]
            items.push(id).contains(other) <==> items.contains(other) || other == id,
{
    let pushed = items.push(id);
    assert(pushed[items.len() as int] == id);
    assert forall|other: Id| pushed.contains(other) implies items.contains(other) || other
        == id by {
        let i = pushed.index_of(other);
        assert(0 <= i < pushed.len() && pushed[i] == other);
        if i < items.len() {
            assert(items[i] == other);
        }
    }
    assert forall|other: Id| items.contains(other) implies pushed.contains(other) by {
        let i = items.index_of(other);
        assert(0 <= i < items.len() && items[i] == other);
        assert(pushed[i] == other);
    }
    assert forall|i: int, j: int|
        0 <= i < pushed.len() && 0 <= j < pushed.len() && i != j implies pushed[i] != pushed[j] by {
        if i == items.len() {
            assert(items[j] == pushed[j]);
            assert(items.contains(pushed[j]));
        } else if j == items.len() {
            assert(items[i] == pushed[i]);
            assert(items.contains(pushed[i]));
        }
    }
}

/// In a sequence free of duplicates, an item stands at one place only.
pub proof fn lemma_index_of(items: Seq<Id>, i: int)
    requires
        items.no_duplicates(),
        0 <= i < items.len(),
    ensures
        items.contains(items[i]),
        items.index_of(items[i]) == i,
{
    assert(items.contains(items[i]));
    let j = items.index_of(items[i]);
    assert(0 <= j < items.len() && items[j] == items[i]);
}

/// Taking an item out of a sequence free of duplicates keeps it so, and
/// takes out that item and no other.
pub proof fn lemma_remove_id(items: Seq<Id>, id: Id)
    requires
        items.no_duplicates(),
    ensures
        remove_id(items, id).no_duplicates(),
        !remove_id(items, id).contains(id),
        forall|other: Id|
            #![trigger remove_id(items, id).contains(other)]
            #![trigger items.contains(other)]
            remove_id(items, id).contains(other) <==> items.contains(other) && other != id,
        remove_id(items, id).len() == if items.contains(id) {
            items.len() - 1
        } else {
            items.len() as int
        },
        remove_id(items, id).len() <= items.len(),
{
    let rest = remove_id(items, id);
    if items.contains(id) {
        let k = items.index_of(id);
        assert(0 <= k < items.len() && items[k] == id);
        assert forall|i: int| 0 <= i < rest.len() implies rest[i] == items[if i < k {
            i
        } else {
            i + 1
        }] by {}
        assert forall|other: Id| rest.contains(other) implies items.contains(other) && other
            != id by {
            let i = rest.index_of(other);
            assert(0 <= i < rest.len() && rest[i] == other);
            let i0 = if i < k { i } else { i + 1 };
            assert(items[i0] == other);
        }
        assert forall|other: Id| items.contains(other) && other != id implies rest.contains(
            other,
        ) by {
            let i0 = items.index_of(other);
            assert(0 <= i0 < items.len() && items[i0] == other);
            let i = if i0 < k { i0 } else { i0 - 1 };
            assert(rest[i] == other);
        }
        assert forall|i: int, j: int|
            0 <= i < rest.len() && 0 <= j < rest.len() && i != j implies rest[i] != rest[j] by {
            let i0 = if i < k { i } else { i + 1 };
            let j0 = if j < k { j } else { j + 1 };
            assert(rest[i] == items[i0]);
            assert(rest[j] == items[j0]);
        }
    }
}

/// A sequence that holds an item is not empty.
pub proof fn lemma_contains_nonempty(items: Seq<Id>, id: Id)
    requires
        items.contains(id),
    ensures
        items.len() > 0,
{
    let i = items.index_of(id);
    assert(0 <= i < items.len() && items[i] == id);
}

} // verus!
