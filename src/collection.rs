//! A backing word viewed as a set of items, one item per set bit.
use core::marker::PhantomData;
use vstd::prelude::*;

verus! {

use crate::bits::{
    bits_of,
    lemma_bv_facts,
    count_ones,
    lemma_bits_and,
    lemma_bits_and_not,
    lemma_bits_empty,
    lemma_bits_finite,
    lemma_bits_injective,
    lemma_bits_or,
    lemma_bits_single,
    lemma_bits_subset_le,
    lemma_bits_xor,
    lemma_bits_zero,
    lemma_clear_lowest_wrapping,
    lemma_highest,
    lemma_lowest,
    word_positions,
};
use crate::order::{
    greatest,
    is_greatest,
    is_least,
    least,
    lemma_greatest_unique,
    lemma_least_greatest,
    lemma_least_unique,
};
use crate::item::BitItem;
use crate::word::Word;
use vstd::std_specs::bits::u64_trailing_zeros;

/// The positions of the items of a sequence.
pub open spec fn positions_of<I: BitItem>(items: Seq<I>) -> Set<nat> {
    Set::new(|p: nat| exists|i: int| 0 <= i < items.len() && #[trigger] items[i].position() == p)
}

/// How many items a collection holds.
#[derive(Clone, Copy, Debug, PartialEq, Eq, Structural)]
pub enum Quantity {
    /// No item.
    Empty,
    /// Exactly one item.
    Single,
    /// More than one item.
    Multiple,
}

/// A set of items of type `I`, stored as the set bits of one word of type `W`.
///
/// `MASK` names the bit positions that stand for items; bits outside it are never set.
/// Such a type is declared once per use, for instance
/// `type CastleRights = BitCollection<u8, CastleRight, 0b1111>;`.
#[derive(Copy, Debug, PartialEq, Eq)]
pub struct BitCollection<W: Word, I: BitItem, const MASK: u64> {
    bits: W,
    item: PhantomData<I>,
}

impl<W: Word, I: BitItem, const MASK: u64> Clone for BitCollection<W, I, MASK> {
    fn clone(&self) -> (r: Self)
        ensures
            r == *self,
    {
        *self
    }
}

impl<W: Word, I: BitItem, const MASK: u64> View for BitCollection<W, I, MASK> {
    type V = Set<nat>;

    /// The positions of the items in the collection.
    closed spec fn view(&self) -> Set<nat> {
        bits_of(self.bits.value())
    }
}

impl<W: Word, I: BitItem, const MASK: u64> BitCollection<W, I, MASK> {
    /// The positions that stand for items.
    pub open spec fn mask() -> Set<nat> {
        bits_of(MASK)
    }

    /// The mask fits the backing word, and every position in it is the position of an item.
    pub open spec fn layout() -> bool {
        &&& MASK <= W::all_ones()
        &&& forall|p: nat| #[trigger] bits_of(MASK).contains(p) ==> I::is_position(p)
    }

    /// The mask holds exactly the positions of the items.
    pub open spec fn exact_layout() -> bool {
        &&& Self::layout()
        &&& forall|p: nat| #[trigger] I::is_position(p) ==> bits_of(MASK).contains(p)
    }

    /// The item's position lies in the mask.
    pub open spec fn accepts(x: I) -> bool {
        bits_of(MASK).contains(x.position())
    }

    #[verifier::type_invariant]
    spec fn inv(self) -> bool {
        &&& Self::layout()
        &&& bits_of(self.bits.value()).subset_of(bits_of(MASK))
    }

    /// The view is a finite set of positions below 64.
    pub proof fn lemma_view_finite(&self)
        ensures
            self@.finite(),
            self@.subset_of(word_positions()),
            self@.len() <= 64,
    {
        lemma_bits_finite(self.bits.value());
    }

    /// A collection is determined by the positions it holds.
    pub proof fn lemma_view_injective(a: Self, b: Self)
        requires
            a@ == b@,
        ensures
            a == b,
    {
        lemma_bits_injective(a.bits.value(), b.bits.value());
        W::lemma_value_injective(a.bits, b.bits);
    }

    /// With an exact layout, every item is accepted.
    pub proof fn lemma_accepts(x: I)
        requires
            Self::exact_layout(),
        ensures
            Self::accepts(x),
    {
        I::lemma_position(x);
    }

    /// The collection whose backing word has the 64-bit value `v`.
    closed spec fn with_bits(v: u64) -> Self {
        BitCollection { bits: W::from_value(v), item: PhantomData }
    }

    /// What `|` gives: the items that are in either collection.
    pub closed spec fn spec_union(self, other: Self) -> Self {
        Self::with_bits(self.bits.value() | other.bits.value())
    }

    /// What `&` gives: the items that are in both collections.
    pub closed spec fn spec_intersection(self, other: Self) -> Self {
        Self::with_bits(self.bits.value() & other.bits.value())
    }

    /// What `-` gives: the items of `self` that are not in `other`.
    pub closed spec fn spec_difference(self, other: Self) -> Self {
        Self::with_bits(self.bits.value() & !other.bits.value())
    }

    /// What `^` gives: the items that are in exactly one of the two collections.
    pub closed spec fn spec_symmetric_difference(self, other: Self) -> Self {
        Self::with_bits(self.bits.value() ^ other.bits.value())
    }

    /// What `!` gives: the items of the mask that are not in the collection.
    pub closed spec fn spec_complement(self) -> Self {
        Self::with_bits(MASK & !self.bits.value())
    }

    /// The views of the results of the operators.
    pub proof fn lemma_spec_ops(a: Self, b: Self)
        ensures
            a.spec_union(b)@ == a@.union(b@),
            a.spec_intersection(b)@ == a@.intersect(b@),
            a.spec_difference(b)@ == a@.difference(b@),
            a.spec_symmetric_difference(b)@ == a@.difference(b@).union(b@.difference(a@)),
            Self::layout() ==> a.spec_complement()@ == Self::mask().difference(a@),
    {
        let x = a.bits.value();
        let y = b.bits.value();
        W::lemma_value(a.bits);
        W::lemma_value(b.bits);
        W::lemma_bounded_ops(x, y);
        lemma_bv_facts(x, y);
        lemma_bv_facts(y, x);
        lemma_bv_facts(MASK, x);
        W::lemma_from_value(x | y);
        W::lemma_from_value(x & y);
        W::lemma_from_value(x & !y);
        W::lemma_from_value(x ^ y);
        lemma_bits_or(x, y);
        lemma_bits_and(x, y);
        lemma_bits_and_not(x, y);
        lemma_bits_xor(x, y);
        if Self::layout() {
            W::lemma_from_value(MASK & !x);
            lemma_bits_and_not(MASK, x);
        }
    }

    /// Builds a collection from a 64-bit value whose bits lie in the mask.
    fn from_bits(v: u64) -> (r: Self)
        requires
            Self::layout(),
            bits_of(v).subset_of(bits_of(MASK)),
        ensures
            r@ == bits_of(v),
            r == Self::with_bits(v),
    {
        proof {
            lemma_bits_subset_le(v, MASK);
        }
        BitCollection { bits: W::from_u64(v), item: PhantomData }
    }

    /// The collection that holds every item of the mask.
    pub fn full() -> (r: Self)
        requires
            Self::layout(),
        ensures
            r@ == Self::mask(),
    {
        Self::from_bits(MASK)
    }

    /// The collection that holds no item.
    pub fn empty() -> (r: Self)
        requires
            Self::layout(),
        ensures
            r@ == Set::<nat>::empty(),
    {
        proof {
            lemma_bits_zero();
        }
        Self::from_bits(0)
    }

    /// The collection that holds `x` alone.
    pub fn from_item(x: I) -> (r: Self)
        requires
            Self::layout(),
            Self::accepts(x),
        ensures
            r@ == set![x.position()],
    {
        let p = x.to_position();
        proof {
            lemma_bits_single(p);
        }
        Self::from_bits(1u64 << p)
    }

    /// The collection of the set bits of `w` that lie in the mask.
    pub fn from_word(w: W) -> (r: Self)
        requires
            Self::layout(),
        ensures
            r@ == bits_of(w.value()).intersect(Self::mask()),
    {
        let v = w.to_u64() & MASK;
        proof {
            lemma_bits_and(w.value(), MASK);
        }
        Self::from_bits(v)
    }

    /// The backing word.
    pub fn word(&self) -> (r: W)
        ensures
            bits_of(r.value()) == self@,
    {
        self.bits
    }

    /// Whether `x` is in the collection.
    pub fn contains(&self, x: I) -> (r: bool)
        requires
            Self::accepts(x),
        ensures
            r == self@.contains(x.position()),
    {
        proof {
            use_type_invariant(self);
        }
        let other = Self::from_item(x);
        self.contains_all(&other)
    }

    /// Whether every item of `other` is in the collection.
    pub fn contains_all(&self, other: &Self) -> (r: bool)
        ensures
            r == other@.subset_of(self@),
    {
        let o = other.bits.to_u64();
        let v = self.bits.to_u64() & o;
        proof {
            lemma_bits_and(self.bits.value(), o);
            if v == o {
                assert(other@.subset_of(self@));
            } else {
                if other@.subset_of(self@) {
                    assert(bits_of(v) =~= bits_of(o));
                    lemma_bits_injective(v, o);
                }
            }
        }
        v == o
    }

    /// Inserts `x`, and hands the collection back for further changes.
    pub fn insert(&mut self, x: I) -> (r: &mut Self)
        requires
            Self::accepts(x),
        ensures
            r@ == old(self)@.insert(x.position()),
            *final(self) == *final(r),
    {
        proof {
            use_type_invariant(&*self);
        }
        let other = Self::from_item(x);
        let v = self.bits.to_u64() | other.bits.to_u64();
        proof {
            lemma_bits_or(self.bits.value(), other.bits.value());
        }
        *self = Self::from_bits(v);
        self
    }

    /// The number of items in the collection.
    pub fn len(&self) -> (r: usize)
        ensures
            r as nat == self@.len(),
    {
        proof {
            lemma_bits_finite(self.bits.value());
        }
        count_ones(self.bits.to_u64()) as usize
    }

    /// Whether the collection holds no item.
    pub fn is_empty(&self) -> (r: bool)
        ensures
            r == self@.is_empty(),
    {
        proof {
            lemma_bits_empty(self.bits.value());
        }
        self.bits.to_u64() == 0
    }

    /// Whether the collection holds more than one item.
    pub fn has_multiple(&self) -> (r: bool)
        ensures
            r == (self@.len() > 1),
    {
        let v = self.bits.to_u64();
        let rest = v & v.wrapping_sub(1);
        proof {
            lemma_bits_finite(v);
            lemma_bits_empty(v);
            lemma_bits_empty(rest);
            lemma_clear_lowest_wrapping(v);
            if v != 0 {
                lemma_lowest(v);
            }
        }
        rest != 0
    }

    /// How many items the collection holds: none, one, or more.
    pub fn quantity(&self) -> (r: Quantity)
        ensures
            r == (if self@.len() == 0 {
                Quantity::Empty
            } else if self@.len() == 1 {
                Quantity::Single
            } else {
                Quantity::Multiple
            }),
    {
        proof {
            lemma_bits_finite(self.bits.value());
        }
        if self.is_empty() {
            Quantity::Empty
        } else if self.has_multiple() {
            Quantity::Multiple
        } else {
            Quantity::Single
        }
    }

    /// The item at the lowest set bit; the collection must not be empty.
    pub fn lsb_unchecked(&self) -> (r: I)
        requires
            !self@.is_empty(),
        ensures
            r.position() == least(self@),
            is_least(self@, r.position()),
    {
        proof {
            use_type_invariant(self);
        }
        let v = self.bits.to_u64();
        proof {
            lemma_bits_zero();
            lemma_lowest(v);
        }
        let t = v.trailing_zeros();
        proof {
            assert(is_least(self@, t as nat));
            lemma_least_unique(self@, t as nat);
        }
        I::from_position(t)
    }

    /// The item at the highest set bit; the collection must not be empty.
    pub fn msb_unchecked(&self) -> (r: I)
        requires
            !self@.is_empty(),
        ensures
            r.position() == greatest(self@),
            is_greatest(self@, r.position()),
    {
        proof {
            use_type_invariant(self);
        }
        let v = self.bits.to_u64();
        proof {
            lemma_bits_zero();
            lemma_highest(v);
        }
        let z = v.leading_zeros();
        let t = 63 - z;
        proof {
            assert(is_greatest(self@, t as nat));
            lemma_greatest_unique(self@, t as nat);
        }
        I::from_position(t)
    }

    /// The item at the lowest set bit, if there is one.
    pub fn lsb(&self) -> (r: Option<I>)
        ensures
            self@.is_empty() ==> r is None,
            !self@.is_empty() ==> r is Some && r->0.position() == least(self@),
    {
        if self.is_empty() {
            None
        } else {
            Some(self.lsb_unchecked())
        }
    }

    /// The item at the highest set bit, if there is one.
    pub fn msb(&self) -> (r: Option<I>)
        ensures
            self@.is_empty() ==> r is None,
            !self@.is_empty() ==> r is Some && r->0.position() == greatest(self@),
    {
        if self.is_empty() {
            None
        } else {
            Some(self.msb_unchecked())
        }
    }

    /// Clears the lowest set bit; an empty collection stays empty.
    pub fn remove_lsb(&mut self)
        ensures
            old(self)@.is_empty() ==> final(self)@ == old(self)@,
            !old(self)@.is_empty() ==> final(self)@ == old(self)@.remove(least(old(self)@)),
    {
        proof {
            use_type_invariant(&*self);
        }
        let v = self.bits.to_u64();
        let rest = v & v.wrapping_sub(1);
        proof {
            lemma_bits_zero();
            lemma_clear_lowest_wrapping(v);
            if v != 0 {
                lemma_lowest(v);
                lemma_least_unique(self@, u64_trailing_zeros(v) as nat);
            }
        }
        *self = Self::from_bits(rest);
    }

    /// Clears the highest set bit; an empty collection stays empty.
    pub fn remove_msb(&mut self)
        ensures
            old(self)@.is_empty() ==> final(self)@ == old(self)@,
            !old(self)@.is_empty() ==> final(self)@ == old(self)@.remove(greatest(old(self)@)),
    {
        self.pop_msb();
    }

    /// Clears the lowest set bit and returns its item; `None` when the collection is empty.
    pub fn pop_lsb(&mut self) -> (r: Option<I>)
        ensures
            old(self)@.is_empty() ==> r is None && final(self)@ == old(self)@,
            !old(self)@.is_empty() ==> {
                &&& r is Some
                &&& r->0.position() == least(old(self)@)
                &&& final(self)@ == old(self)@.remove(least(old(self)@))
            },
    {
        match self.lsb() {
            None => None,
            Some(x) => {
                self.remove_lsb();
                Some(x)
            },
        }
    }

    /// Clears the highest set bit and returns its item; `None` when the collection is empty.
    pub fn pop_msb(&mut self) -> (r: Option<I>)
        ensures
            old(self)@.is_empty() ==> r is None && final(self)@ == old(self)@,
            !old(self)@.is_empty() ==> {
                &&& r is Some
                &&& r->0.position() == greatest(old(self)@)
                &&& final(self)@ == old(self)@.remove(greatest(old(self)@))
            },
    {
        proof {
            use_type_invariant(&*self);
        }
        match self.msb() {
            None => None,
            Some(x) => {
                proof {
                    lemma_bits_finite(self.bits.value());
                    lemma_least_greatest(self@);
                }
                let single = Self::from_item(x);
                let v = self.bits.to_u64() ^ single.bits.to_u64();
                proof {
                    lemma_bits_xor(self.bits.value(), single.bits.value());
                    assert(bits_of(v) =~= self@.remove(x.position()));
                }
                *self = Self::from_bits(v);
                Some(x)
            },
        }
    }

    /// The only item of the collection; `None` when it holds no item or more than one.
    pub fn into_bit(self) -> (r: Option<I>)
        ensures
            r is Some <==> self@.len() == 1,
            r is Some ==> self@ == set![r->0.position()],
    {
        proof {
            lemma_bits_finite(self.bits.value());
        }
        let mut rest = self;
        let bit = rest.pop_lsb();
        proof {
            if bit is Some {
                let p = least(self@);
                lemma_least_greatest(self@);
                assert(self@.contains(p));
                if rest@.is_empty() {
                    assert(self@ =~= set![p]);
                } else {
                    assert(self@.len() == rest@.len() + 1);
                }
            }
        }
        if rest.is_empty() {
            bit
        } else {
            None
        }
    }

    /// The items that are in either collection.
    pub fn union(self, other: Self) -> (r: Self)
        ensures
            r@ == self@.union(other@),
            r == self.spec_union(other),
    {
        proof {
            use_type_invariant(&self);
            use_type_invariant(&other);
            lemma_bits_or(self.bits.value(), other.bits.value());
        }
        Self::from_bits(self.bits.to_u64() | other.bits.to_u64())
    }

    /// The items that are in both collections.
    pub fn intersection(self, other: Self) -> (r: Self)
        ensures
            r@ == self@.intersect(other@),
            r == self.spec_intersection(other),
    {
        proof {
            use_type_invariant(&self);
            lemma_bits_and(self.bits.value(), other.bits.value());
        }
        Self::from_bits(self.bits.to_u64() & other.bits.to_u64())
    }

    /// The items of `self` that are not in `other`.
    pub fn difference(self, other: Self) -> (r: Self)
        ensures
            r@ == self@.difference(other@),
            r == self.spec_difference(other),
    {
        proof {
            use_type_invariant(&self);
            lemma_bits_and_not(self.bits.value(), other.bits.value());
        }
        Self::from_bits(self.bits.to_u64() & !other.bits.to_u64())
    }

    /// The items that are in exactly one of the two collections.
    pub fn symmetric_difference(self, other: Self) -> (r: Self)
        ensures
            r@ == self@.difference(other@).union(other@.difference(self@)),
            r == self.spec_symmetric_difference(other),
    {
        proof {
            use_type_invariant(&self);
            use_type_invariant(&other);
            lemma_bits_xor(self.bits.value(), other.bits.value());
        }
        Self::from_bits(self.bits.to_u64() ^ other.bits.to_u64())
    }

    /// The items of the mask that are not in the collection.
    pub fn complement(self) -> (r: Self)
        ensures
            r@ == Self::mask().difference(self@),
            r == self.spec_complement(),
    {
        proof {
            use_type_invariant(&self);
            lemma_bits_and_not(MASK, self.bits.value());
        }
        Self::from_bits(MASK & !self.bits.to_u64())
    }

    /// The collection without `x`.
    pub fn removing(self, x: I) -> (r: Self)
        requires
            Self::accepts(x),
        ensures
            r@ == self@.remove(x.position()),
    {
        proof {
            use_type_invariant(&self);
        }
        let r = self.difference(Self::from_item(x));
        assert(r@ =~= self@.remove(x.position()));
        r
    }

    /// The collection with `x`.
    pub fn inserting(self, x: I) -> (r: Self)
        requires
            Self::accepts(x),
        ensures
            r@ == self@.insert(x.position()),
    {
        proof {
            use_type_invariant(&self);
        }
        let r = self.union(Self::from_item(x));
        assert(r@ =~= self@.insert(x.position()));
        r
    }

    /// The collection with `x` added if it was absent and taken out if it was present.
    pub fn toggling(self, x: I) -> (r: Self)
        requires
            Self::accepts(x),
        ensures
            r@ == (if self@.contains(x.position()) {
                self@.remove(x.position())
            } else {
                self@.insert(x.position())
            }),
    {
        proof {
            use_type_invariant(&self);
        }
        let r = self.symmetric_difference(Self::from_item(x));
        proof {
            if self@.contains(x.position()) {
                assert(r@ =~= self@.remove(x.position()));
            } else {
                assert(r@ =~= self@.insert(x.position()));
            }
        }
        r
    }

    /// The collection cut down to `x`: `x` alone if it was present, else nothing.
    pub fn intersecting(self, x: I) -> (r: Self)
        requires
            Self::accepts(x),
        ensures
            r@ == self@.intersect(set![x.position()]),
    {
        proof {
            use_type_invariant(&self);
        }
        self.intersection(Self::from_item(x))
    }

    /// The collection with `x` if `condition` holds, and without it otherwise.
    pub fn setting(self, x: I, condition: bool) -> (r: Self)
        requires
            Self::accepts(x),
        ensures
            condition ==> r@ == self@.insert(x.position()),
            !condition ==> r@ == self@.remove(x.position()),
    {
        if condition {
            self.inserting(x)
        } else {
            self.removing(x)
        }
    }

    /// Takes `x` out, and hands the collection back for further changes.
    pub fn remove(&mut self, x: I) -> (r: &mut Self)
        requires
            Self::accepts(x),
        ensures
            r@ == old(self)@.remove(x.position()),
            *final(self) == *final(r),
    {
        *self = self.removing(x);
        self
    }

    /// Adds `x` if it is absent and takes it out if it is present, and hands the collection
    /// back for further changes.
    pub fn toggle(&mut self, x: I) -> (r: &mut Self)
        requires
            Self::accepts(x),
        ensures
            r@ == (if old(self)@.contains(x.position()) {
                old(self)@.remove(x.position())
            } else {
                old(self)@.insert(x.position())
            }),
            *final(self) == *final(r),
    {
        *self = self.toggling(x);
        self
    }

    /// Cuts the collection down to `x`, and hands it back for further changes.
    pub fn intersect(&mut self, x: I) -> (r: &mut Self)
        requires
            Self::accepts(x),
        ensures
            r@ == old(self)@.intersect(set![x.position()]),
            *final(self) == *final(r),
    {
        *self = self.intersecting(x);
        self
    }

    /// Adds `x` if `condition` holds and takes it out otherwise, and hands the collection
    /// back for further changes.
    pub fn set(&mut self, x: I, condition: bool) -> (r: &mut Self)
        requires
            Self::accepts(x),
        ensures
            condition ==> r@ == old(self)@.insert(x.position()),
            !condition ==> r@ == old(self)@.remove(x.position()),
            *final(self) == *final(r),
    {
        if condition {
            self.insert(x)
        } else {
            self.remove(x)
        }
    }

    /// The collection of the given items, added one by one to the empty collection.
    pub fn from_items(items: &[I]) -> (r: Self)
        requires
            Self::layout(),
            forall|i: int| 0 <= i < items@.len() ==> Self::accepts(#[trigger] items@[i]),
        ensures
            r@ == positions_of(items@),
    {
        let mut r = Self::empty();
        let mut i: usize = 0;
        while i < items.len()
            invariant
                Self::layout(),
                forall|k: int| 0 <= k < items@.len() ==> Self::accepts(#[trigger] items@[k]),
                0 <= i <= items@.len(),
                r@ == positions_of(items@.take(i as int)),
            decreases items@.len() - i,
        {
            let x = items[i];
            r = r.inserting(x);
            proof {
                let before = items@.take(i as int);
                let after = items@.take(i as int + 1);
                assert(after =~= before.push(x));
                assert forall|p: nat| r@.contains(p) == positions_of(after).contains(p) by {
                    if p == x.position() {
                        assert(after[i as int] == x);
                    } else if r@.contains(p) {
                        let k = choose|k: int|
                            0 <= k < before.len() && #[trigger] before[k].position() == p;
                        assert(after[k] == before[k]);
                    } else if positions_of(after).contains(p) {
                        let k = choose|k: int|
                            0 <= k < after.len() && #[trigger] after[k].position() == p;
                        assert(k < i);
                        assert(before[k] == after[k]);
                    }
                }
                assert(r@ =~= positions_of(after));
            }
            i = i + 1;
        }
        assert(items@.take(i as int) =~= items@);
        r
    }

    /// Adds the given items.
    pub fn extend(&mut self, items: &[I])
        requires
            forall|i: int| 0 <= i < items@.len() ==> Self::accepts(#[trigger] items@[i]),
        ensures
            final(self)@ == old(self)@.union(positions_of(items@)),
    {
        proof {
            use_type_invariant(&*self);
        }
        let added = Self::from_items(items);
        *self = self.union(added);
    }

    /// Adds every item of `other`, and hands the collection back for further changes.
    pub fn insert_all(&mut self, other: Self) -> (r: &mut Self)
        ensures
            r@ == old(self)@.union(other@),
            *final(self) == *final(r),
    {
        *self = self.union(other);
        self
    }

    /// Takes out every item of `other`, and hands the collection back for further changes.
    pub fn remove_all(&mut self, other: Self) -> (r: &mut Self)
        ensures
            r@ == old(self)@.difference(other@),
            *final(self) == *final(r),
    {
        *self = self.difference(other);
        self
    }

    /// Toggles every item of `other`, and hands the collection back for further changes.
    pub fn toggle_all(&mut self, other: Self) -> (r: &mut Self)
        ensures
            r@ == old(self)@.difference(other@).union(other@.difference(old(self)@)),
            *final(self) == *final(r),
    {
        *self = self.symmetric_difference(other);
        self
    }

    /// Keeps only the items that are also in `other`, and hands the collection back for
    /// further changes.
    pub fn intersect_all(&mut self, other: Self) -> (r: &mut Self)
        ensures
            r@ == old(self)@.intersect(other@),
            *final(self) == *final(r),
    {
        *self = self.intersection(other);
        self
    }
}

} // verus!
