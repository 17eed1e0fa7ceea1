//! Properties that hold of every collection, stated over the views that the operations'
//! contracts use.
use vstd::prelude::*;

verus! {

use crate::collection::BitCollection;
use crate::item::BitItem;
use crate::order::{ascending, lemma_ascending, least, strictly_decreasing, strictly_increasing};
use crate::word::Word;

/// A collection is empty exactly when it holds zero items.
pub proof fn law_empty_iff_len_zero<W: Word, I: BitItem, const MASK: u64>(
    c: BitCollection<W, I, MASK>,
)
    ensures
        c@.is_empty() == (c@.len() == 0),
{
    c.lemma_view_finite();
}

/// After inserting an item the collection contains it; after then removing it, it does not.
pub proof fn law_insert_then_remove<W: Word, I: BitItem, const MASK: u64>(
    c: BitCollection<W, I, MASK>,
    x: I,
    inserted: BitCollection<W, I, MASK>,
    removed: BitCollection<W, I, MASK>,
)
    requires
        inserted@ == c@.insert(x.position()),
        removed@ == inserted@.remove(x.position()),
    ensures
        inserted@.contains(x.position()),
        !removed@.contains(x.position()),
{
}

/// Draining forward gives strictly increasing positions, draining backward strictly
/// decreasing ones, each sequence is the other reversed, and together they hold exactly the
/// collection's positions.
pub proof fn law_drain_order<W: Word, I: BitItem, const MASK: u64>(c: BitCollection<W, I, MASK>)
    ensures
        strictly_increasing(ascending(c@)),
        strictly_decreasing(ascending(c@).reverse()),
        ascending(c@).reverse().reverse() == ascending(c@),
        ascending(c@).to_set() == c@,
{
    c.lemma_view_finite();
    lemma_ascending(c@);
    let q = ascending(c@);
    assert forall|i: int, j: int| 0 <= i < j < q.reverse().len() implies #[trigger] q.reverse()[i]
        > #[trigger] q.reverse()[j] by {
        assert(q.reverse()[i] == q[q.len() - 1 - i]);
        assert(q.reverse()[j] == q[q.len() - 1 - j]);
    }
    assert(q.reverse().reverse() =~= q);
    assert(q.to_set() =~= c@);
}

/// The number of items equals the number of items that draining yields.
pub proof fn law_len_is_drain_count<W: Word, I: BitItem, const MASK: u64>(
    c: BitCollection<W, I, MASK>,
)
    ensures
        ascending(c@).len() == c@.len(),
{
    c.lemma_view_finite();
    lemma_ascending(c@);
}

/// Inserting an item a second time changes nothing.
pub proof fn law_inserting_idempotent<W: Word, I: BitItem, const MASK: u64>(
    c: BitCollection<W, I, MASK>,
    x: I,
    once: BitCollection<W, I, MASK>,
    twice: BitCollection<W, I, MASK>,
)
    requires
        once@ == c@.insert(x.position()),
        twice@ == once@.insert(x.position()),
    ensures
        twice == once,
{
    assert(twice@ =~= once@);
    BitCollection::lemma_view_injective(twice, once);
}

/// Removing an item a second time changes nothing.
pub proof fn law_removing_idempotent<W: Word, I: BitItem, const MASK: u64>(
    c: BitCollection<W, I, MASK>,
    x: I,
    once: BitCollection<W, I, MASK>,
    twice: BitCollection<W, I, MASK>,
)
    requires
        once@ == c@.remove(x.position()),
        twice@ == once@.remove(x.position()),
    ensures
        twice == once,
{
    assert(twice@ =~= once@);
    BitCollection::lemma_view_injective(twice, once);
}

/// The view after toggling the position `p` of `s`.
pub open spec fn toggled(s: Set<nat>, p: nat) -> Set<nat> {
    if s.contains(p) {
        s.remove(p)
    } else {
        s.insert(p)
    }
}

/// Toggling an item twice gives back the collection.
pub proof fn law_toggling_twice<W: Word, I: BitItem, const MASK: u64>(
    c: BitCollection<W, I, MASK>,
    x: I,
    once: BitCollection<W, I, MASK>,
    twice: BitCollection<W, I, MASK>,
)
    requires
        once@ == toggled(c@, x.position()),
        twice@ == toggled(once@, x.position()),
    ensures
        twice == c,
{
    assert(twice@ =~= c@);
    BitCollection::lemma_view_injective(twice, c);
}

/// The full collection contains every item that the mask accepts; the empty collection
/// contains none and is empty.
pub proof fn law_full_and_empty<W: Word, I: BitItem, const MASK: u64>(
    full: BitCollection<W, I, MASK>,
    empty: BitCollection<W, I, MASK>,
    x: I,
)
    requires
        full@ == BitCollection::<W, I, MASK>::mask(),
        empty@ == Set::<nat>::empty(),
        BitCollection::<W, I, MASK>::accepts(x),
    ensures
        full@.contains(x.position()),
        !empty@.contains(x.position()),
        empty@.is_empty(),
{
}

/// The item that a one-item collection hands back is the item it was made from.
pub proof fn law_single_item_round_trip<W: Word, I: BitItem, const MASK: u64>(
    x: I,
    single: BitCollection<W, I, MASK>,
    y: I,
)
    requires
        single@ == set![x.position()],
        y.position() == least(single@),
    ensures
        y == x,
{
    crate::order::lemma_least_unique(single@, x.position());
    I::lemma_position_injective(x, y);
}

} // verus!
