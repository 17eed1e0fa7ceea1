//! The unsigned integer types that can back a collection.
use vstd::prelude::*;

verus! {

/// An unsigned integer of 8, 16, 32 or 64 bits, used as the backing word of a collection.
///
/// Every operation of a collection works on the word's value widened to 64 bits; the
/// word itself is only read and written through the two conversions below.
pub trait Word: Copy + Sized {
    /// The value of the word, zero-extended to 64 bits.
    spec fn value(&self) -> u64;

    /// The largest value of the width: every one of its bits set.
    spec fn all_ones() -> u64;

    /// The word whose value is `v`, for `v` no larger than `all_ones()`.
    spec fn from_value(v: u64) -> Self;

    proof fn lemma_value(w: Self)
        ensures
            w.value() <= Self::all_ones(),
    ;

    proof fn lemma_from_value(v: u64)
        requires
            v <= Self::all_ones(),
        ensures
            Self::from_value(v).value() == v,
    ;

    /// Or and exclusive or of two values of the width stay within the width.
    proof fn lemma_bounded_ops(a: u64, b: u64)
        requires
            a <= Self::all_ones(),
            b <= Self::all_ones(),
        ensures
            a | b <= Self::all_ones(),
            a ^ b <= Self::all_ones(),
    ;

    proof fn lemma_value_injective(a: Self, b: Self)
        requires
            a.value() == b.value(),
        ensures
            a == b,
    ;

    /// Widens the word to 64 bits.
    fn to_u64(self) -> (r: u64)
        ensures
            r == self.value(),
    ;

    /// Narrows a 64-bit value that fits the width.
    fn from_u64(v: u64) -> (r: Self)
        requires
            v <= Self::all_ones(),
        ensures
            r.value() == v,
            r == Self::from_value(v),
    ;
}

impl Word for u8 {
    open spec fn value(&self) -> u64 {
        *self as u64
    }

    open spec fn all_ones() -> u64 {
        0xff
    }

    open spec fn from_value(v: u64) -> Self {
        v as u8
    }

    proof fn lemma_value(w: Self) {
    }

    proof fn lemma_from_value(v: u64) {
    }

    proof fn lemma_bounded_ops(a: u64, b: u64) {
        assert(a <= 0xffu64 && b <= 0xffu64 ==> a | b <= 0xffu64 && a ^ b <= 0xffu64)
            by (bit_vector);
    }

    proof fn lemma_value_injective(a: Self, b: Self) {
    }

    fn to_u64(self) -> (r: u64) {
        self as u64
    }

    fn from_u64(v: u64) -> (r: Self) {
        v as u8
    }
}

impl Word for u16 {
    open spec fn value(&self) -> u64 {
        *self as u64
    }

    open spec fn all_ones() -> u64 {
        0xffff
    }

    open spec fn from_value(v: u64) -> Self {
        v as u16
    }

    proof fn lemma_value(w: Self) {
    }

    proof fn lemma_from_value(v: u64) {
    }

    proof fn lemma_bounded_ops(a: u64, b: u64) {
        assert(a <= 0xffffu64 && b <= 0xffffu64 ==> a | b <= 0xffffu64 && a ^ b <= 0xffffu64)
            by (bit_vector);
    }

    proof fn lemma_value_injective(a: Self, b: Self) {
    }

    fn to_u64(self) -> (r: u64) {
        self as u64
    }

    fn from_u64(v: u64) -> (r: Self) {
        v as u16
    }
}

impl Word for u32 {
    open spec fn value(&self) -> u64 {
        *self as u64
    }

    open spec fn all_ones() -> u64 {
        0xffff_ffff
    }

    open spec fn from_value(v: u64) -> Self {
        v as u32
    }

    proof fn lemma_value(w: Self) {
    }

    proof fn lemma_from_value(v: u64) {
    }

    proof fn lemma_bounded_ops(a: u64, b: u64) {
        assert(a <= 0xffff_ffffu64 && b <= 0xffff_ffffu64 ==> a | b <= 0xffff_ffffu64 && a ^ b
            <= 0xffff_ffffu64) by (bit_vector);
    }

    proof fn lemma_value_injective(a: Self, b: Self) {
    }

    fn to_u64(self) -> (r: u64) {
        self as u64
    }

    fn from_u64(v: u64) -> (r: Self) {
        v as u32
    }
}

impl Word for u64 {
    open spec fn value(&self) -> u64 {
        *self
    }

    open spec fn all_ones() -> u64 {
        0xffff_ffff_ffff_ffff
    }

    open spec fn from_value(v: u64) -> Self {
        v
    }

    proof fn lemma_value(w: Self) {
    }

    proof fn lemma_from_value(v: u64) {
    }

    proof fn lemma_bounded_ops(a: u64, b: u64) {
    }

    proof fn lemma_value_injective(a: Self, b: Self) {
    }

    fn to_u64(self) -> (r: u64) {
        self
    }

    fn from_u64(v: u64) -> (r: Self) {
        v
    }
}

} // verus!
