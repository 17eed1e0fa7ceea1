//! Draining a collection one item at a time, from either end.
use vstd::prelude::*;

verus! {

use crate::collection::BitCollection;
use crate::item::BitItem;
use crate::order::{ascending, least, lemma_ascending, lemma_ascending_last, lemma_least_greatest};
use crate::word::Word;

/// An iterator that owns a collection and drains it: forward from the lowest set bit,
/// backward from the highest.
#[derive(Copy, Debug, PartialEq, Eq)]
pub struct BitIter<W: Word, I: BitItem, const MASK: u64> {
    collection: BitCollection<W, I, MASK>,
}

impl<W: Word, I: BitItem, const MASK: u64> Clone for BitIter<W, I, MASK> {
    fn clone(&self) -> (r: Self)
        ensures
            r == *self,
    {
        *self
    }
}

impl<W: Word, I: BitItem, const MASK: u64> View for BitIter<W, I, MASK> {
    type V = Seq<nat>;

    /// The positions still to come, lowest first.
    open spec fn view(&self) -> Seq<nat> {
        ascending(self.remaining()@)
    }
}

impl<W: Word, I: BitItem, const MASK: u64> BitIter<W, I, MASK> {
    /// The collection of the items still to come.
    pub closed spec fn remaining(&self) -> BitCollection<W, I, MASK> {
        self.collection
    }

    /// The iterator over the items of `collection`.
    pub closed spec fn over(collection: BitCollection<W, I, MASK>) -> Self {
        BitIter { collection }
    }

    /// An iterator over the items of `collection`.
    pub fn new(collection: BitCollection<W, I, MASK>) -> (r: Self)
        ensures
            r == Self::over(collection),
            r.remaining() == collection,
            r@ == ascending(collection@),
    {
        BitIter { collection }
    }

    /// The collection of the items still to come.
    pub fn into_inner(self) -> (r: BitCollection<W, I, MASK>)
        ensures
            r == self.remaining(),
    {
        self.collection
    }

    /// A reference to the collection of the items still to come.
    pub fn as_ref(&self) -> (r: &BitCollection<W, I, MASK>)
        ensures
            *r == self.remaining(),
    {
        &self.collection
    }

    /// A mutable reference to the collection of the items still to come.
    pub fn as_mut(&mut self) -> (r: &mut BitCollection<W, I, MASK>)
        ensures
            *r == old(self).remaining(),
            final(self).remaining() == *final(r),
    {
        &mut self.collection
    }

    /// Takes the item at the lowest set bit; `None` once the collection is drained.
    pub fn next(&mut self) -> (r: Option<I>)
        ensures
            old(self)@.len() == 0 ==> r is None && final(self)@ == old(self)@,
            old(self)@.len() > 0 ==> {
                &&& r is Some
                &&& r->0.position() == old(self)@[0]
                &&& final(self)@ == old(self)@.drop_first()
            },
    {
        let ghost s = self.collection@;
        proof {
            self.collection.lemma_view_finite();
            lemma_ascending(s);
            if !s.is_empty() {
                lemma_least_greatest(s);
                assert(ascending(s) == seq![least(s)] + ascending(s.remove(least(s))));
                assert(ascending(s).drop_first() =~= ascending(s.remove(least(s))));
            }
        }
        self.collection.pop_lsb()
    }

    /// Takes the item at the highest set bit; `None` once the collection is drained.
    pub fn next_back(&mut self) -> (r: Option<I>)
        ensures
            old(self)@.len() == 0 ==> r is None && final(self)@ == old(self)@,
            old(self)@.len() > 0 ==> {
                &&& r is Some
                &&& r->0.position() == old(self)@.last()
                &&& final(self)@ == old(self)@.drop_last()
            },
    {
        let ghost s = self.collection@;
        proof {
            self.collection.lemma_view_finite();
            lemma_ascending(s);
            if !s.is_empty() {
                lemma_ascending_last(s);
            }
        }
        self.collection.pop_msb()
    }

    /// The number of items still to come.
    pub fn len(&self) -> (r: usize)
        ensures
            r == self@.len(),
    {
        proof {
            self.collection.lemma_view_finite();
            lemma_ascending(self.collection@);
        }
        self.collection.len()
    }

    /// Bounds on the number of items still to come: both are exact.
    pub fn size_hint(&self) -> (r: (usize, Option<usize>))
        ensures
            r.0 == self@.len(),
            r.1 == Some(r.0),
    {
        let n = self.len();
        (n, Some(n))
    }

    /// The number of items still to come.
    pub fn count(self) -> (r: usize)
        ensures
            r == self@.len(),
    {
        self.len()
    }

    /// The item that would come last; `None` when the collection is drained.
    pub fn last(self) -> (r: Option<I>)
        ensures
            self@.len() == 0 ==> r is None,
            self@.len() > 0 ==> r is Some && r->0.position() == self@.last(),
    {
        let ghost s = self.collection@;
        proof {
            self.collection.lemma_view_finite();
            lemma_ascending(s);
            if !s.is_empty() {
                lemma_ascending_last(s);
            }
        }
        self.collection.msb()
    }
}

impl<W: Word, I: BitItem, const MASK: u64> From<BitCollection<W, I, MASK>> for BitIter<W, I, MASK> {
    fn from(collection: BitCollection<W, I, MASK>) -> (r: Self) {
        BitIter::new(collection)
    }
}

impl<W: Word, I: BitItem, const MASK: u64> vstd::std_specs::convert::FromSpecImpl<BitCollection<W, I, MASK>> for BitIter<W, I, MASK> {
    open spec fn obeys_from_spec() -> bool {
        true
    }

    open spec fn from_spec(collection: BitCollection<W, I, MASK>) -> Self {
        Self::over(collection)
    }
}

impl<W: Word, I: BitItem, const MASK: u64> From<BitIter<W, I, MASK>> for BitCollection<W, I, MASK> {
    fn from(iter: BitIter<W, I, MASK>) -> (r: Self) {
        iter.into_inner()
    }
}

impl<W: Word, I: BitItem, const MASK: u64> vstd::std_specs::convert::FromSpecImpl<BitIter<W, I, MASK>> for BitCollection<W, I, MASK> {
    open spec fn obeys_from_spec() -> bool {
        true
    }

    open spec fn from_spec(iter: BitIter<W, I, MASK>) -> Self {
        iter.remaining()
    }
}

impl<W: Word, I: BitItem, const MASK: u64> BitCollection<W, I, MASK> {
    /// An iterator that drains the collection.
    pub fn into_iter(self) -> (r: BitIter<W, I, MASK>)
        ensures
            r.remaining() == self,
            r@ == ascending(self@),
    {
        BitIter::new(self)
    }

    /// The items of the collection, lowest bit first.
    pub fn to_vec(&self) -> (r: Vec<I>)
        ensures
            r@.map_values(|x: I| x.position()) == ascending(self@),
    {
        let mut it = self.into_iter();
        let mut out: Vec<I> = Vec::new();
        loop
            invariant
                out@.map_values(|x: I| x.position()) + it@ == ascending(self@),
            ensures
                out@.map_values(|x: I| x.position()) == ascending(self@),
            decreases it@.len(),
        {
            let ghost before = it@;
            match it.next() {
                None => {
                    assert(out@.map_values(|x: I| x.position()) =~= ascending(self@));
                    break ;
                },
                Some(x) => {
                    let ghost seen = out@.map_values(|x: I| x.position());
                    out.push(x);
                    assert(out@.map_values(|x: I| x.position()) =~= seen.push(x.position()));
                    assert(seen.push(x.position()) + it@ =~= seen + before);
                },
            }
        }
        out
    }

    /// The items of the collection, highest bit first.
    pub fn to_vec_rev(&self) -> (r: Vec<I>)
        ensures
            r@.map_values(|x: I| x.position()) == ascending(self@).reverse(),
    {
        let mut it = self.into_iter();
        let mut out: Vec<I> = Vec::new();
        loop
            invariant
                out@.map_values(|x: I| x.position()) + it@.reverse() == ascending(
                    self@,
                ).reverse(),
            ensures
                out@.map_values(|x: I| x.position()) == ascending(self@).reverse(),
            decreases it@.len(),
        {
            let ghost before = it@;
            match it.next_back() {
                None => {
                    assert(it@.reverse() =~= Seq::<nat>::empty());
                    assert(out@.map_values(|x: I| x.position()) =~= ascending(self@).reverse());
                    break ;
                },
                Some(x) => {
                    let ghost seen = out@.map_values(|x: I| x.position());
                    out.push(x);
                    assert(out@.map_values(|x: I| x.position()) =~= seen.push(x.position()));
                    assert(seen.push(x.position()) + it@.reverse() =~= seen + before.reverse());
                },
            }
        }
        out
    }
}

} // verus!
