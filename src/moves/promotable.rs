use vstd::prelude::*;

use crate::pieces::{Bishop, Knight, Queen, Rook};

verus! {

/// A piece that can be turned into one of the promotion kinds.
pub trait Promotable: Sized {
    fn into_rook(self) -> Rook;

    fn into_bishop(self) -> Bishop;

    fn into_knight(self) -> Knight;

    fn into_queen(self) -> Queen;
}

} // verus!
