use vstd::prelude::*;

use crate::board::Board;
use crate::pieces::Color;
use crate::square::Square;

verus! {

/// A piece that stands on the board and reaches squares from it.
pub trait Placable {
    fn get_color(&self) -> Color;

    fn get_position(&self) -> Square;

    /// The squares reached from `coord`: the destinations, or only the attacked
    /// squares when `is_threatening` is set.
    fn get_valid_moves(&self, board: &mut Board, coord: Square, is_threatening: bool) -> Vec<Square>;

    fn set_position(&mut self, position: Square);
}

} // verus!
