//! The first item of a sequence that meets a condition.
use vstd::prelude::*;

verus! {

/// The position of the first item that is wanted, the number of items where none is.
pub open spec fn first_where<A>(items: Seq<A>, wanted: spec_fn(A) -> bool) -> int
    decreases items.len(),
{
    if items.len() == 0 || wanted(items[0]) {
        0
    } else {
        1 + first_where(items.skip(1), wanted)
    }
}

/// The first item that is wanted.
pub open spec fn find<A>(items: Seq<A>, wanted: spec_fn(A) -> bool) -> Option<A> {
    let at = first_where(items, wanted);
    if at < items.len() {
        Some(items[at])
    } else {
        None
    }
}

/// What `first_where` is: at an item only if that one is wanted, and behind none that is.
pub proof fn lemma_first_where<A>(items: Seq<A>, wanted: spec_fn(A) -> bool)
    ensures
        0 <= first_where(items, wanted) <= items.len(),
        first_where(items, wanted) < items.len() ==> wanted(items[first_where(items, wanted)]),
        forall|k: int| 0 <= k < first_where(items, wanted) ==> !wanted(#[trigger] items[k]),
    decreases items.len(),
{
    if items.len() > 0 && !wanted(items[0]) {
        let rest = items.skip(1);
        lemma_first_where(rest, wanted);
        assert forall|k: int| 0 <= k < first_where(items, wanted) implies !wanted(
            #[trigger] items[k],
        ) by {
            if k > 0 {
                assert(rest[k - 1] == items[k]);
            }
        }
    }
}

/// A position at the end or at an item that is wanted, and behind none, is `first_where`.
pub proof fn lemma_first_where_is<A>(items: Seq<A>, wanted: spec_fn(A) -> bool, at: int)
    requires
        0 <= at <= items.len(),
        at < items.len() ==> wanted(items[at]),
        forall|k: int| 0 <= k < at ==> !wanted(#[trigger] items[k]),
    ensures
        first_where(items, wanted) == at,
{
    lemma_first_where(items, wanted);
    let found = first_where(items, wanted);
    if found < at {
        assert(!wanted(items[found]));
    } else if at < found {
        assert(!wanted(items[at]));
    }
}

/// What is found is the item at the first position that meets the condition; nothing is found where
/// no item meets it.
pub proof fn law_found_first<A>(items: Seq<A>, wanted: spec_fn(A) -> bool, at: int)
    requires
        0 <= at <= items.len(),
        at < items.len() ==> wanted(items[at]),
        forall|k: int| 0 <= k < at ==> !wanted(#[trigger] items[k]),
    ensures
        at < items.len() ==> find(items, wanted) == Some(items[at]),
        at == items.len() ==> find(items, wanted) is None,
{
    lemma_first_where_is(items, wanted, at);
}

} // verus!
