use bit_collection::{BitCollection, BitItem, CastleRight, Word};
use std::fmt::Debug;

fn test_collection<W: Word, I: BitItem + Eq + Debug, const MASK: u64>(all: &[I]) {
    let full = BitCollection::<W, I, MASK>::full();
    for &x in all {
        assert!(full.contains(x));
    }
    assert_eq!(full.len(), all.len());

    let mut forward = full.into_iter();
    for &b in all.iter() {
        assert_eq!(forward.next(), Some(b));
    }
    assert_eq!(forward.next(), None);

    let mut backward = full.into_iter();
    for &b in all.iter().rev() {
        assert_eq!(backward.next_back(), Some(b));
    }
    assert_eq!(backward.next_back(), None);
}

#[test]
fn bits4_enum() {
    let all = [
        CastleRight::WhiteKingside,
        CastleRight::BlackKingside,
        CastleRight::WhiteQueenside,
        CastleRight::BlackQueenside,
    ];
    test_collection::<u8, CastleRight, 0b1111>(&all);
}

#[test]
fn bits4_struct() {
    test_collection::<u8, u8, 0b1111>(&[0, 1, 2, 3]);
}

#[test]
fn bits16_struct() {
    let all: Vec<u8> = (0..16).collect();
    test_collection::<u16, u8, 0xffff>(&all);
}

#[test]
fn bits32_struct() {
    let all: Vec<u8> = (0..32).collect();
    test_collection::<u32, u8, 0xffff_ffff>(&all);
}

#[test]
fn bits64_struct() {
    let all: Vec<u8> = (0..64).collect();
    test_collection::<u64, u8, 0xffff_ffff_ffff_ffff>(&all);
}

#[test]
fn sparse_mask_iterates_only_its_positions() {
    test_collection::<u16, u8, 0b1010_0000_0001_0010>(&[1, 4, 13, 15]);
}
