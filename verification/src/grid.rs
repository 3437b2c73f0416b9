use vstd::prelude::*;
use crate::color::CellColor;

verus! {

/// Linear index of the cell at `(col, row)` in a row-major grid of the
/// given width: cell `(col, row)` lives at `col + width * row`.
pub open spec fn cell_index(width: int, col: int, row: int) -> int {
    col + width * row
}

/// Every cell of the grid holds the empty sentinel.
pub open spec fn board_empty(board: Seq<CellColor>) -> bool {
    forall|j: int| 0 <= j < board.len() ==> board[j].spec_is_empty()
}

/// A coordinate inside the half-open bounds gives a linear index inside
/// the grid.
pub proof fn lemma_cell_index_in_range(width: int, height: int, col: int, row: int)
    requires
        0 <= col < width,
        0 <= row < height,
    ensures
        0 <= cell_index(width, col, row) < width * height,
{
    assert(0 <= col + width * row < width * height) by (nonlinear_arith)
        requires
            0 <= col < width,
            0 <= row < height,
    ;
}

} // verus!
