//! The set operators on collections: `|`, `&`, `-`, `^` and `!`.
use vstd::prelude::*;

verus! {

use crate::collection::BitCollection;
use crate::item::BitItem;
use crate::word::Word;

impl<W: Word, I: BitItem, const MASK: u64> std::ops::BitOr for BitCollection<W, I, MASK> {
    type Output = Self;

    fn bitor(self, rhs: Self) -> (r: Self) {
        self.union(rhs)
    }
}

impl<W: Word, I: BitItem, const MASK: u64> vstd::std_specs::ops::BitOrSpecImpl for BitCollection<W, I, MASK> {
    open spec fn obeys_bitor_spec() -> bool {
        true
    }

    open spec fn bitor_req(self, rhs: Self) -> bool {
        true
    }

    open spec fn bitor_spec(self, rhs: Self) -> Self {
        self.spec_union(rhs)
    }
}

impl<W: Word, I: BitItem, const MASK: u64> std::ops::BitAnd for BitCollection<W, I, MASK> {
    type Output = Self;

    fn bitand(self, rhs: Self) -> (r: Self) {
        self.intersection(rhs)
    }
}

impl<W: Word, I: BitItem, const MASK: u64> vstd::std_specs::ops::BitAndSpecImpl for BitCollection<W, I, MASK> {
    open spec fn obeys_bitand_spec() -> bool {
        true
    }

    open spec fn bitand_req(self, rhs: Self) -> bool {
        true
    }

    open spec fn bitand_spec(self, rhs: Self) -> Self {
        self.spec_intersection(rhs)
    }
}

impl<W: Word, I: BitItem, const MASK: u64> std::ops::Sub for BitCollection<W, I, MASK> {
    type Output = Self;

    fn sub(self, rhs: Self) -> (r: Self) {
        self.difference(rhs)
    }
}

impl<W: Word, I: BitItem, const MASK: u64> vstd::std_specs::ops::SubSpecImpl for BitCollection<W, I, MASK> {
    open spec fn obeys_sub_spec() -> bool {
        true
    }

    open spec fn sub_req(self, rhs: Self) -> bool {
        true
    }

    open spec fn sub_spec(self, rhs: Self) -> Self {
        self.spec_difference(rhs)
    }
}

impl<W: Word, I: BitItem, const MASK: u64> std::ops::BitXor for BitCollection<W, I, MASK> {
    type Output = Self;

    fn bitxor(self, rhs: Self) -> (r: Self) {
        self.symmetric_difference(rhs)
    }
}

impl<W: Word, I: BitItem, const MASK: u64> vstd::std_specs::ops::BitXorSpecImpl for BitCollection<W, I, MASK> {
    open spec fn obeys_bitxor_spec() -> bool {
        true
    }

    open spec fn bitxor_req(self, rhs: Self) -> bool {
        true
    }

    open spec fn bitxor_spec(self, rhs: Self) -> Self {
        self.spec_symmetric_difference(rhs)
    }
}

impl<W: Word, I: BitItem, const MASK: u64> std::ops::Not for BitCollection<W, I, MASK> {
    type Output = Self;

    fn not(self) -> (r: Self) {
        self.complement()
    }
}

impl<W: Word, I: BitItem, const MASK: u64> vstd::std_specs::ops::NotSpecImpl for BitCollection<W, I, MASK> {
    open spec fn obeys_not_spec() -> bool {
        true
    }

    open spec fn not_req(self) -> bool {
        true
    }

    open spec fn not_spec(self) -> Self {
        self.spec_complement()
    }
}

} // verus!
