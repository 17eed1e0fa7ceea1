//! Castling rights of a chess position: a set of four items in one byte.
use vstd::prelude::*;

verus! {

use crate::bits::bits_of;
use crate::collection::BitCollection;
use crate::item::BitItem;

/// One of the four castling rights, in bit order.
#[derive(Clone, Copy, Debug, PartialEq, Eq, Structural)]
pub enum CastleRight {
    WhiteKingside,
    BlackKingside,
    WhiteQueenside,
    BlackQueenside,
}

impl BitItem for CastleRight {
    open spec fn position(&self) -> nat {
        match self {
            CastleRight::WhiteKingside => 0,
            CastleRight::BlackKingside => 1,
            CastleRight::WhiteQueenside => 2,
            CastleRight::BlackQueenside => 3,
        }
    }

    open spec fn is_position(p: nat) -> bool {
        p < 4
    }

    proof fn lemma_position(x: Self) {
    }

    proof fn lemma_position_injective(a: Self, b: Self) {
    }

    fn to_position(&self) -> (r: u64) {
        match self {
            CastleRight::WhiteKingside => 0,
            CastleRight::BlackKingside => 1,
            CastleRight::WhiteQueenside => 2,
            CastleRight::BlackQueenside => 3,
        }
    }

    fn from_position(p: u32) -> (r: Self) {
        if p == 0 {
            CastleRight::WhiteKingside
        } else if p == 1 {
            CastleRight::BlackKingside
        } else if p == 2 {
            CastleRight::WhiteQueenside
        } else {
            CastleRight::BlackQueenside
        }
    }
}

/// A set of castling rights, one bit each in the low four bits of a byte.
pub type CastleRights = BitCollection<u8, CastleRight, 0b1111>;

proof fn lemma_low_four_bits(i: u64)
    by (bit_vector)
    requires
        i < 64,
    ensures
        (15u64 >> i) & 1u64 == 1u64 <==> i < 4,
{
}

/// The mask of `CastleRights` holds exactly the positions of the four rights.
pub proof fn lemma_castle_rights_layout()
    ensures
        CastleRights::exact_layout(),
{
    assert forall|p: nat| #[trigger] bits_of(0b1111u64).contains(p) <==> p < 4 by {
        if p < 64 {
            lemma_low_four_bits(p as u64);
        }
    }
}

} // verus!
