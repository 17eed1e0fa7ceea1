use bit_collection::{BitCollection, BitIter, CastleRight, CastleRights, Quantity};

type Bits16 = BitCollection<u16, u8, 0xffff>;
type Bits8 = BitCollection<u8, u8, 0xff>;
type Board = BitCollection<u64, u8, 0xffff_ffff_ffff_ffff>;

const A: CastleRight = CastleRight::WhiteKingside;
const B: CastleRight = CastleRight::BlackKingside;
const C: CastleRight = CastleRight::WhiteQueenside;
const D: CastleRight = CastleRight::BlackQueenside;

fn drain_forward(c: Bits8) -> Vec<u8> {
    let mut out = Vec::new();
    let mut it = c.into_iter();
    while let Some(x) = it.next() {
        out.push(x);
    }
    out
}

fn drain_backward(c: Bits8) -> Vec<u8> {
    let mut out = Vec::new();
    let mut it = c.into_iter();
    while let Some(x) = it.next_back() {
        out.push(x);
    }
    out
}

#[test]
fn is_empty_iff_len_zero() {
    for x in 0..=u8::MAX {
        let c = Bits8::from_word(x);
        assert_eq!(c.is_empty(), c.len() == 0);
    }
}

#[test]
fn insert_then_contains_then_remove() {
    for x in [0u8, 0b1010_0101, 0xff] {
        for item in 0..8u8 {
            let mut c = Bits8::from_word(x);
            c.insert(item);
            assert!(c.contains(item));
            c.remove(item);
            assert!(!c.contains(item));
        }
    }
}

#[test]
fn insert_and_remove_chain() {
    let mut c = CastleRights::empty();
    c.insert(A).insert(C).remove(A);
    assert_eq!(c.to_vec(), vec![C]);
}

#[test]
fn drain_orders_are_reverses() {
    for x in 0..=u8::MAX {
        let c = Bits8::from_word(x);
        let forward = drain_forward(c);
        let backward = drain_backward(c);
        for w in forward.windows(2) {
            assert!(w[0] < w[1]);
        }
        for w in backward.windows(2) {
            assert!(w[0] > w[1]);
        }
        let mut reversed = backward.clone();
        reversed.reverse();
        assert_eq!(forward, reversed);
        assert_eq!(forward, c.to_vec());
        assert_eq!(backward, c.to_vec_rev());
    }
}

#[test]
fn len_equals_drain_count() {
    for x in 0..=u8::MAX {
        let c = Bits8::from_word(x);
        assert_eq!(c.len(), drain_forward(c).len());
        assert_eq!(c.len(), c.into_iter().count());
        assert_eq!(c.into_iter().size_hint(), (c.len(), Some(c.len())));
    }
}

#[test]
fn inserting_and_removing_are_idempotent() {
    for x in [0u8, 0b0110_0011, 0xff] {
        let c = Bits8::from_word(x);
        for item in 0..8u8 {
            assert_eq!(c.inserting(item).inserting(item), c.inserting(item));
            assert_eq!(c.removing(item).removing(item), c.removing(item));
        }
    }
}

#[test]
fn toggling_twice_is_identity() {
    for x in 0..=u8::MAX {
        let c = Bits8::from_word(x);
        for item in 0..8u8 {
            assert_eq!(c.toggling(item).toggling(item), c);
            assert_ne!(c.toggling(item), c);
        }
    }
}

#[test]
fn full_contains_every_item_and_empty_none() {
    let full = CastleRights::full();
    let empty = CastleRights::empty();
    for x in [A, B, C, D] {
        assert!(full.contains(x));
        assert!(!empty.contains(x));
    }
    assert!(empty.is_empty());
    assert!(!full.is_empty());
}

#[test]
fn four_item_enumeration() {
    let full = CastleRights::full();
    assert_eq!(full.to_vec(), vec![A, B, C, D]);
    assert_eq!(full.to_vec_rev(), vec![D, C, B, A]);
    assert_eq!(full.len(), 4);
    assert_eq!(CastleRights::empty().len(), 0);
    assert_eq!(full.word(), 0b1111);
}

#[test]
fn sixteen_item_enumeration() {
    let full = Bits16::full();
    assert_eq!(full.len(), 16);
    assert!(full.has_multiple());
    assert!(!Bits16::empty().has_multiple());
    for x in 0..16u8 {
        assert!(!Bits16::from_item(x).has_multiple());
        assert_eq!(Bits16::from_item(x).quantity(), Quantity::Single);
    }
    assert_eq!(full.quantity(), Quantity::Multiple);
    assert_eq!(Bits16::empty().quantity(), Quantity::Empty);
}

#[test]
fn building_from_items() {
    let built = CastleRights::from_items(&[B, D]);
    assert_eq!(built, CastleRights::empty().inserting(B).inserting(D));
    assert_eq!(built.len(), 2);
    assert!(built.contains(B) && built.contains(D) && !built.contains(A) && !built.contains(C));
    assert_eq!(built.word(), 0b1010);
    assert_eq!(CastleRights::from_items(&[]), CastleRights::empty());
    assert_eq!(CastleRights::from_items(&[C, C, A]).to_vec(), vec![A, C]);
}

#[test]
fn extend_adds_items() {
    let mut c = CastleRights::from_item(A);
    c.extend(&[D, A]);
    assert_eq!(c.to_vec(), vec![A, D]);
}

#[test]
fn raw_words_are_masked() {
    let c = CastleRights::from_word(0xff);
    assert_eq!(c, CastleRights::full());
    assert_eq!(c.word(), 0b1111);
    assert_eq!(CastleRights::from_word(0b1111_0000), CastleRights::empty());
    assert_eq!(CastleRights::from_word(0b0101_0101).to_vec(), vec![A, C]);
}

#[test]
fn complement_stays_in_mask() {
    assert_eq!(CastleRights::empty().complement(), CastleRights::full());
    assert_eq!(CastleRights::from_item(B).complement().to_vec(), vec![A, C, D]);
    assert_eq!(CastleRights::from_item(B).complement().word(), 0b1101);
    assert_eq!(CastleRights::full().complement(), CastleRights::empty());
}

#[test]
fn set_algebra() {
    let ab = CastleRights::from_items(&[A, B]);
    let bc = CastleRights::from_items(&[B, C]);
    assert_eq!(ab.union(bc).to_vec(), vec![A, B, C]);
    assert_eq!(ab.intersection(bc).to_vec(), vec![B]);
    assert_eq!(ab.difference(bc).to_vec(), vec![A]);
    assert_eq!(ab.symmetric_difference(bc).to_vec(), vec![A, C]);
    assert!(ab.contains_all(&CastleRights::from_item(A)));
    assert!(!ab.contains_all(&bc));
    assert!(ab.contains_all(&CastleRights::empty()));

    let mut c = ab;
    c.insert_all(bc);
    assert_eq!(c.to_vec(), vec![A, B, C]);
    c.remove_all(ab);
    assert_eq!(c.to_vec(), vec![C]);
    c.toggle_all(bc);
    assert_eq!(c.to_vec(), vec![B]);
    c.intersect_all(ab);
    assert_eq!(c.to_vec(), vec![B]);
    c.intersect_all(CastleRights::from_item(D));
    assert!(c.is_empty());
}

#[test]
fn item_combinators() {
    let c = CastleRights::from_items(&[A, C]);
    assert_eq!(c.intersecting(A).to_vec(), vec![A]);
    assert!(c.intersecting(B).is_empty());
    assert_eq!(c.setting(B, true).to_vec(), vec![A, B, C]);
    assert_eq!(c.setting(A, false).to_vec(), vec![C]);
    assert_eq!(c.toggling(A).to_vec(), vec![C]);
    assert_eq!(c.toggling(D).to_vec(), vec![A, C, D]);

    let mut m = c;
    m.set(D, true).set(C, false).toggle(B);
    assert_eq!(m.to_vec(), vec![A, B, D]);
    m.intersect(B);
    assert_eq!(m.to_vec(), vec![B]);
}

#[test]
fn least_and_most_significant_items() {
    let c = CastleRights::from_items(&[B, D]);
    assert_eq!(c.lsb(), Some(B));
    assert_eq!(c.msb(), Some(D));
    assert_eq!(c.lsb_unchecked(), B);
    assert_eq!(c.msb_unchecked(), D);
    assert_eq!(CastleRights::empty().lsb(), None);
    assert_eq!(CastleRights::empty().msb(), None);

    let mut p = c;
    assert_eq!(p.pop_lsb(), Some(B));
    assert_eq!(p.to_vec(), vec![D]);
    assert_eq!(p.pop_lsb(), Some(D));
    assert_eq!(p.pop_lsb(), None);
    assert!(p.is_empty());

    let mut q = c;
    assert_eq!(q.pop_msb(), Some(D));
    assert_eq!(q.pop_msb(), Some(B));
    assert_eq!(q.pop_msb(), None);

    let mut r = CastleRights::full();
    r.remove_lsb();
    assert_eq!(r.to_vec(), vec![B, C, D]);
    r.remove_msb();
    assert_eq!(r.to_vec(), vec![B, C]);
    let mut e = CastleRights::empty();
    e.remove_lsb();
    e.remove_msb();
    assert!(e.is_empty());
}

#[test]
fn into_bit_needs_exactly_one_item() {
    assert_eq!(CastleRights::from_item(C).into_bit(), Some(C));
    assert_eq!(CastleRights::empty().into_bit(), None);
    assert_eq!(CastleRights::from_items(&[A, C]).into_bit(), None);
}

#[test]
fn widest_word() {
    let full = Board::full();
    assert_eq!(full.len(), 64);
    assert_eq!(full.lsb(), Some(0));
    assert_eq!(full.msb(), Some(63));
    let corners = Board::from_items(&[0, 7, 56, 63]);
    assert_eq!(corners.word(), 0x8100_0000_0000_0081);
    assert_eq!(corners.to_vec_rev(), vec![63, 56, 7, 0]);
    assert_eq!(corners.complement().len(), 60);
    assert_eq!(Board::from_item(63).word(), 1u64 << 63);
}

#[test]
fn iterator_accessors() {
    let c = CastleRights::from_items(&[A, B, D]);
    let mut it = c.into_iter();
    assert_eq!(it.len(), 3);
    assert_eq!(*it.as_ref(), c);
    assert_eq!(it.next(), Some(A));
    it.as_mut().remove(D);
    assert_eq!(it.into_inner().to_vec(), vec![B]);
    assert_eq!(c.into_iter().last(), Some(D));
    assert_eq!(CastleRights::empty().into_iter().last(), None);
    let mut both = c.into_iter();
    assert_eq!(both.next_back(), Some(D));
    assert_eq!(both.next(), Some(A));
    assert_eq!(both.next_back(), Some(B));
    assert_eq!(both.next(), None);
}

#[test]
fn operators() {
    let ab = CastleRights::from_items(&[A, B]);
    let bc = CastleRights::from_items(&[B, C]);
    assert_eq!(ab | bc, ab.union(bc));
    assert_eq!((ab | bc).to_vec(), vec![A, B, C]);
    assert_eq!((ab & bc).to_vec(), vec![B]);
    assert_eq!((ab - bc).to_vec(), vec![A]);
    assert_eq!((ab ^ bc).to_vec(), vec![A, C]);
    assert_eq!((!ab).to_vec(), vec![C, D]);
    assert_eq!((!ab).word(), 0b1100);
    assert_eq!(!CastleRights::full(), CastleRights::empty());
}

#[test]
fn conversions_between_collection_and_iterator() {
    let c = CastleRights::from_items(&[A, D]);
    let mut it: BitIter<u8, CastleRight, 0b1111> = BitIter::from(c);
    assert_eq!(it.next(), Some(A));
    let rest: CastleRights = CastleRights::from(it);
    assert_eq!(rest.to_vec(), vec![D]);
    assert_eq!(BitIter::new(c), c.into_iter());
}
