//! Bit positions of a 64-bit word, viewed as a set of naturals.
use vstd::prelude::*;

verus! {

use vstd::std_specs::bits::{
    u64_trailing_zeros,
    u64_leading_zeros,
    axiom_u64_trailing_zeros,
    axiom_u64_leading_zeros,
};

/// Whether bit `i` (counted from the least significant end) of `w` is set.
pub open spec fn has_bit(w: u64, i: nat) -> bool {
    i < 64 && (w >> (i as u64)) & 1u64 == 1u64
}

/// The positions of the set bits of `w`.
pub open spec fn bits_of(w: u64) -> Set<nat> {
    Set::new(|i: nat| has_bit(w, i))
}

/// The positions that a 64-bit word can hold.
pub open spec fn word_positions() -> Set<nat> {
    Set::new(|i: nat| i < 64)
}

/// Relies on `u64::count_ones`: the number of bits of the word that are set.
#[verifier::external_body]
pub(crate) fn count_ones(w: u64) -> (r: u32)
    ensures
        r as nat == bits_of(w).len(),
{
    w.count_ones()
}

proof fn lemma_bit_ops(a: u64, b: u64, i: u64)
    by (bit_vector)
    requires
        i < 64,
    ensures
        ((a & b) >> i) & 1u64 == 1u64 <==> ((a >> i) & 1u64 == 1u64 && (b >> i) & 1u64 == 1u64),
        ((a | b) >> i) & 1u64 == 1u64 <==> ((a >> i) & 1u64 == 1u64 || (b >> i) & 1u64 == 1u64),
        ((a ^ b) >> i) & 1u64 == 1u64 <==> ((a >> i) & 1u64 == 1u64) != ((b >> i) & 1u64
            == 1u64),
        ((a & !b) >> i) & 1u64 == 1u64 <==> ((a >> i) & 1u64 == 1u64 && (b >> i) & 1u64
            != 1u64),
        ((0u64 >> i) & 1u64) != 1u64,
        ((1u64 << a) >> i) & 1u64 == 1u64 <==> (a < 64 && i == a),
        (a >> i) & 1u64 != 1u64 ==> (a >> i) & 1u64 == 0u64,
{
}

pub(crate) proof fn lemma_bv_facts(a: u64, b: u64)
    by (bit_vector)
    ensures
        a ^ b == 0u64 ==> a == b,
        a & b <= b,
        a & !b <= a,
        0u64 & b == 0u64,
{
}

proof fn lemma_lowest_cleared_bit(w: u64, t: u64, i: u64)
    by (bit_vector)
    requires
        w != 0,
        t < 64,
        i < 64,
        (w >> t) & 1u64 == 1u64,
        w << vstd::prelude::sub(64u64, t) == 0,
    ensures
        ((w & vstd::prelude::sub(w, 1u64)) >> i) & 1u64 == 1u64 <==> (i != t && (w >> i) & 1u64
            == 1u64),
{
}

/// The positions of a word lie below 64, so there are finitely many of them.
pub proof fn lemma_bits_finite(w: u64)
    ensures
        bits_of(w).subset_of(word_positions()),
        bits_of(w).finite(),
        bits_of(w).len() <= 64,
{
    lemma_word_positions();
    vstd::set_lib::lemma_len_subset(bits_of(w), word_positions());
}

proof fn lemma_word_positions()
    ensures
        word_positions().finite(),
        word_positions().len() == 64,
{
    vstd::set_lib::range_set_properties::<nat>(0, 64);
    assert(word_positions() =~= Set::<nat>::range(0, 64));
}

pub proof fn lemma_bits_and(a: u64, b: u64)
    ensures
        bits_of(a & b) == bits_of(a).intersect(bits_of(b)),
{
    assert forall|i: nat| bits_of(a & b).contains(i) == bits_of(a).intersect(bits_of(b)).contains(
        i,
    ) by {
        if i < 64 {
            lemma_bit_ops(a, b, i as u64);
        }
    }
    assert(bits_of(a & b) =~= bits_of(a).intersect(bits_of(b)));
}

pub proof fn lemma_bits_or(a: u64, b: u64)
    ensures
        bits_of(a | b) == bits_of(a).union(bits_of(b)),
{
    assert forall|i: nat| bits_of(a | b).contains(i) == bits_of(a).union(bits_of(b)).contains(
        i,
    ) by {
        if i < 64 {
            lemma_bit_ops(a, b, i as u64);
        }
    }
    assert(bits_of(a | b) =~= bits_of(a).union(bits_of(b)));
}

pub proof fn lemma_bits_xor(a: u64, b: u64)
    ensures
        bits_of(a ^ b) == bits_of(a).difference(bits_of(b)).union(
            bits_of(b).difference(bits_of(a)),
        ),
{
    let s = bits_of(a).difference(bits_of(b)).union(bits_of(b).difference(bits_of(a)));
    assert forall|i: nat| bits_of(a ^ b).contains(i) == s.contains(i) by {
        if i < 64 {
            lemma_bit_ops(a, b, i as u64);
        }
    }
    assert(bits_of(a ^ b) =~= s);
}

pub proof fn lemma_bits_and_not(a: u64, b: u64)
    ensures
        bits_of(a & !b) == bits_of(a).difference(bits_of(b)),
{
    assert forall|i: nat| bits_of(a & !b).contains(i) == bits_of(a).difference(
        bits_of(b),
    ).contains(i) by {
        if i < 64 {
            lemma_bit_ops(a, b, i as u64);
        }
    }
    assert(bits_of(a & !b) =~= bits_of(a).difference(bits_of(b)));
}

pub proof fn lemma_bits_zero()
    ensures
        bits_of(0u64) == Set::<nat>::empty(),
{
    assert forall|i: nat| !bits_of(0u64).contains(i) by {
        if i < 64 {
            lemma_bit_ops(0, 0, i as u64);
        }
    }
    assert(bits_of(0u64) =~= Set::<nat>::empty());
}

pub proof fn lemma_bits_single(p: u64)
    requires
        p < 64,
    ensures
        bits_of(1u64 << p) == set![p as nat],
{
    assert forall|i: nat| bits_of(1u64 << p).contains(i) == set![p as nat].contains(i) by {
        if i < 64 {
            lemma_bit_ops(p, 0, i as u64);
        }
    }
    assert(bits_of(1u64 << p) =~= set![p as nat]);
}

/// The lowest set bit of a non-zero word is its number of trailing zeros.
pub proof fn lemma_lowest(w: u64)
    requires
        w != 0,
    ensures
        u64_trailing_zeros(w) < 64,
        bits_of(w).contains(u64_trailing_zeros(w) as nat),
        forall|p: nat| #[trigger] bits_of(w).contains(p) ==> u64_trailing_zeros(w) <= p,
{
    axiom_u64_trailing_zeros(w);
    assert forall|p: nat| #[trigger] bits_of(w).contains(p) implies u64_trailing_zeros(w) <= p by {
        if p < u64_trailing_zeros(w) {
            assert((w >> (p as u64)) & 1u64 == 0u64);
        }
    }
}

/// The highest set bit of a non-zero word is 63 less its number of leading zeros.
pub proof fn lemma_highest(w: u64)
    requires
        w != 0,
    ensures
        u64_leading_zeros(w) < 64,
        bits_of(w).contains((63 - u64_leading_zeros(w)) as nat),
        forall|p: nat| #[trigger] bits_of(w).contains(p) ==> p <= 63 - u64_leading_zeros(w),
{
    axiom_u64_leading_zeros(w);
    let t = (63 - u64_leading_zeros(w)) as u64;
    assert((w >> t) & 1u64 != 0u64);
    lemma_bit_ops(w, 0, t);
    assert forall|p: nat| #[trigger] bits_of(w).contains(p) implies p <= 63 - u64_leading_zeros(
        w,
    ) by {
        if p > 63 - u64_leading_zeros(w) {
            assert((w >> (p as u64)) & 1u64 == 0u64);
        }
    }
}

/// A word is zero exactly when none of its bits is set.
pub proof fn lemma_bits_empty(w: u64)
    ensures
        bits_of(w).is_empty() <==> w == 0,
        bits_of(w).len() == 0 <==> w == 0,
{
    lemma_bits_finite(w);
    lemma_bits_zero();
    if w != 0 {
        lemma_lowest(w);
    }
}

/// A word is determined by its set bits.
pub proof fn lemma_bits_injective(a: u64, b: u64)
    requires
        bits_of(a) == bits_of(b),
    ensures
        a == b,
{
    lemma_bits_xor(a, b);
    assert(bits_of(a ^ b) =~= Set::<nat>::empty());
    lemma_bits_empty(a ^ b);
    lemma_bv_facts(a, b);
}

/// A word whose bits all lie in `m` is no larger than `m`.
pub proof fn lemma_bits_subset_le(v: u64, m: u64)
    requires
        bits_of(v).subset_of(bits_of(m)),
    ensures
        v <= m,
{
    lemma_bits_and(v, m);
    assert(bits_of(v & m) =~= bits_of(v));
    lemma_bits_injective(v & m, v);
    lemma_bv_facts(v, m);
}

/// `w & w.wrapping_sub(1)` clears the lowest set bit of a word, and leaves zero as it is.
pub proof fn lemma_clear_lowest_wrapping(w: u64)
    ensures
        w == 0 ==> bits_of(w & w.wrapping_sub(1)) == Set::<nat>::empty(),
        w != 0 ==> bits_of(w & w.wrapping_sub(1)) == bits_of(w).remove(
            u64_trailing_zeros(w) as nat,
        ),
{
    if w == 0 {
        lemma_bv_facts(0, w.wrapping_sub(1));
        lemma_bits_zero();
    } else {
        assert(w.wrapping_sub(1) == vstd::prelude::sub(w, 1u64));
        lemma_clear_lowest(w);
    }
}

/// `w & (w - 1)` clears the lowest set bit of a non-zero word.
pub proof fn lemma_clear_lowest(w: u64)
    requires
        w != 0,
    ensures
        bits_of(w & vstd::prelude::sub(w, 1u64)) == bits_of(w).remove(u64_trailing_zeros(w) as nat),
{
    axiom_u64_trailing_zeros(w);
    let t = u64_trailing_zeros(w) as u64;
    assert forall|i: nat| bits_of(w & vstd::prelude::sub(w, 1u64)).contains(i) == bits_of(w).remove(
        t as nat,
    ).contains(i) by {
        if i < 64 {
            lemma_lowest_cleared_bit(w, t, i as u64);
        }
    }
    assert(bits_of(w & vstd::prelude::sub(w, 1u64)) =~= bits_of(w).remove(t as nat));
}

} // verus!
