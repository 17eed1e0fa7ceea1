//! Fixed-width unsigned words viewed as typed sets of items, one item per set bit.
//!
//! A collection type is declared by naming its backing word, its item type and the mask of
//! the bit positions that stand for items:
//! `type CastleRights = BitCollection<u8, CastleRight, 0b1111>;`.
pub mod bits;
pub mod castle_rights;
pub mod collection;
pub mod item;
pub mod iter;
pub mod laws;
pub mod ops;
pub mod order;
pub mod word;

pub use castle_rights::{CastleRight, CastleRights};
pub use collection::{BitCollection, Quantity};
pub use item::BitItem;
pub use iter::BitIter;
pub use word::Word;
