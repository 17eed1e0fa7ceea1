//! Items: values that each stand for one bit position.
use vstd::prelude::*;

verus! {

/// A value that stands for a single bit position, counted from the least significant bit.
///
/// The position is what a collection stores; the item is rebuilt from it when a collection
/// hands one out, so the two conversions must undo each other.
pub trait BitItem: Copy + Sized {
    /// The bit position of the item.
    spec fn position(&self) -> nat;

    /// Whether some item has position `p`.
    spec fn is_position(p: nat) -> bool;

    proof fn lemma_position(x: Self)
        ensures
            Self::is_position(x.position()),
    ;

    /// Distinct items have distinct positions.
    proof fn lemma_position_injective(a: Self, b: Self)
        requires
            a.position() == b.position(),
        ensures
            a == b,
    ;

    /// The bit position of the item.
    fn to_position(&self) -> (r: u64)
        ensures
            r as nat == self.position(),
    ;

    /// The item at position `p`.
    fn from_position(p: u32) -> (r: Self)
        requires
            Self::is_position(p as nat),
        ensures
            r.position() == p as nat,
    ;
}

/// A plain byte stands for the position it holds.
impl BitItem for u8 {
    open spec fn position(&self) -> nat {
        *self as nat
    }

    open spec fn is_position(p: nat) -> bool {
        p <= 0xff
    }

    proof fn lemma_position(x: Self) {
    }

    proof fn lemma_position_injective(a: Self, b: Self) {
    }

    fn to_position(&self) -> (r: u64) {
        *self as u64
    }

    fn from_position(p: u32) -> (r: Self) {
        p as u8
    }
}

} // verus!
