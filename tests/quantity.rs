use bit_collection::{BitCollection, Quantity};

type U8Bits = BitCollection<u8, u8, 0xff>;

#[test]
fn quantity() {
    for b in (0..u8::MAX).map(|x| U8Bits::from_word(x)) {
        let q = match b.len() {
            0 => Quantity::Empty,
            1 => Quantity::Single,
            _ => Quantity::Multiple,
        };
        assert_eq!(q, b.quantity());
    }
}

#[test]
fn quantity_matches_emptiness_and_multiplicity_for_every_word() {
    for x in 0..=u8::MAX {
        let b = U8Bits::from_word(x);
        let by_len = match b.len() {
            0 => Quantity::Empty,
            1 => Quantity::Single,
            _ => Quantity::Multiple,
        };
        let direct = if b.is_empty() {
            Quantity::Empty
        } else if b.has_multiple() {
            Quantity::Multiple
        } else {
            Quantity::Single
        };
        assert_eq!(by_len, direct);
        assert_eq!(b.quantity(), direct);
    }
}

#[test]
fn len_counts_set_bits() {
    assert_eq!(U8Bits::from_word(0b1011).len(), 3);
    assert_eq!(U8Bits::from_word(0).len(), 0);
    assert_eq!(U8Bits::from_word(0xff).len(), 8);
    for x in 0..=u8::MAX {
        assert_eq!(U8Bits::from_word(x).len(), x.count_ones() as usize);
    }
}
