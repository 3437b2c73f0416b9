use vstd::prelude::*;
use crate::color::CellColor;
use crate::grid::board_empty;
use crate::grid::cell_index;
use crate::grid::lemma_cell_index_in_range;
use crate::tetromino::Direction;
use crate::tetromino::Tetromino;
use crate::tetromino::catalog_offsets;
use crate::tetromino::dims_ok;
use crate::tetromino::is_spawn;
use crate::tetromino::rel_after;

verus! {

/// A spawn anchor that keeps every catalog shape on the board: the
/// catalog's offsets span columns -1 through 1 and rows -1 through 2
/// around the anchor.
pub open spec fn valid_spawn_anchor(x: i32, y: i32, width: int, height: int) -> bool {
    &&& 1 <= x as int
    &&& x as int + 1 < width
    &&& 1 <= y as int
    &&& y as int + 2 < height
}

/// Every catalog shape, spawned at a valid anchor, has all four blocks
/// inside `[0, width) x [0, height)`, and the piece is well-formed for
/// the grid.
pub proof fn lemma_spawn_in_bounds(t: Tetromino, k: int, x: i32, y: i32, width: int, height: int)
    requires
        dims_ok(width, height),
        1 <= k <= 7,
        valid_spawn_anchor(x, y, width, height),
        is_spawn(t, k, x, y),
    ensures
        t.wf(width, height),
{
    assert forall|i: int| 0 <= i < 4 implies t.block_in_bounds(i, width, height)
        && t.offset_in_scale(i, width, height) by {
        assert(((t.blocks[i]).x as int, t.blocks[i].y as int) == catalog_offsets(k)[i]);
    }
}

/// On an empty board a downward move is legal exactly while every block
/// is above the bottom row; at the first rejection some block already
/// rests on row `height - 1`.
pub proof fn lemma_move_down_on_empty(
    t: Tetromino,
    width: int,
    height: int,
    board: Seq<CellColor>,
)
    requires
        dims_ok(width, height),
        board.len() == width * height,
        t.wf(width, height),
        board_empty(board),
    ensures
        t.can_translate(Direction::Down, width, height, board) <==> (forall|i: int|
            0 <= i < 4 ==> #[trigger] t.abs_row(i) + 1 < height),
        !t.can_translate(Direction::Down, width, height, board) ==> exists|i: int|
            0 <= i < 4 && #[trigger] t.abs_row(i) == height - 1,
{
    if forall|i: int| 0 <= i < 4 ==> #[trigger] t.abs_row(i) + 1 < height {
        assert forall|i: int| 0 <= i < 4 implies t.translate_ok(
            i,
            Direction::Down,
            width,
            height,
            board,
        ) by {
            assert(t.block_in_bounds(i, width, height) && t.offset_in_scale(i, width, height));
            lemma_cell_index_in_range(width, height, t.abs_col(i), t.abs_row(i) + 1);
        }
    }
    if t.can_translate(Direction::Down, width, height, board) {
        assert forall|i: int| 0 <= i < 4 implies #[trigger] t.abs_row(i) + 1 < height by {
            assert(t.translate_ok(i, Direction::Down, width, height, board));
        }
    }
    if !t.can_translate(Direction::Down, width, height, board) {
        let i = choose|i: int|
            0 <= i < 4 && !t.translate_ok(i, Direction::Down, width, height, board);
        assert(t.block_in_bounds(i, width, height) && t.offset_in_scale(i, width, height));
        if t.abs_row(i) + 1 < height {
            lemma_cell_index_in_range(width, height, t.abs_col(i), t.abs_row(i) + 1);
            assert(t.translate_ok(i, Direction::Down, width, height, board));
        }
        assert(t.abs_row(i) == height - 1);
    }
}

/// On an empty board a Left move is legal exactly while every block's
/// column is at least 1; at the first rejection some block already sits
/// against the left wall. A rejected move leaves the piece unchanged (an
/// ensures of `move_to_side`), so once rejected, every further Left
/// request is rejected the same way.
pub proof fn lemma_move_left_on_empty(
    t: Tetromino,
    width: int,
    height: int,
    board: Seq<CellColor>,
)
    requires
        dims_ok(width, height),
        board.len() == width * height,
        t.wf(width, height),
        board_empty(board),
    ensures
        t.can_translate(Direction::Left, width, height, board) <==> (forall|i: int|
            0 <= i < 4 ==> #[trigger] t.abs_col(i) >= 1),
        !t.can_translate(Direction::Left, width, height, board) ==> exists|i: int|
            0 <= i < 4 && #[trigger] t.abs_col(i) == 0,
{
    if forall|i: int| 0 <= i < 4 ==> #[trigger] t.abs_col(i) >= 1 {
        assert forall|i: int| 0 <= i < 4 implies t.translate_ok(
            i,
            Direction::Left,
            width,
            height,
            board,
        ) by {
            assert(t.block_in_bounds(i, width, height) && t.offset_in_scale(i, width, height));
            lemma_cell_index_in_range(width, height, t.abs_col(i) - 1, t.abs_row(i));
        }
    }
    if t.can_translate(Direction::Left, width, height, board) {
        assert forall|i: int| 0 <= i < 4 implies #[trigger] t.abs_col(i) >= 1 by {
            assert(t.translate_ok(i, Direction::Left, width, height, board));
        }
    }
    if !t.can_translate(Direction::Left, width, height, board) {
        let i = choose|i: int|
            0 <= i < 4 && !t.translate_ok(i, Direction::Left, width, height, board);
        assert(t.block_in_bounds(i, width, height) && t.offset_in_scale(i, width, height));
        if t.abs_col(i) >= 1 {
            lemma_cell_index_in_range(width, height, t.abs_col(i) - 1, t.abs_row(i));
            assert(t.translate_ok(i, Direction::Left, width, height, board));
        }
        assert(t.abs_col(i) == 0);
    }
}

/// With the board empty but for one occupied cell, a downward move of a
/// piece whose blocks are all above the bottom row is legal exactly when
/// no block would land on that cell.
pub proof fn lemma_move_down_single_obstacle(
    t: Tetromino,
    width: int,
    height: int,
    board: Seq<CellColor>,
    ocol: int,
    orow: int,
)
    requires
        dims_ok(width, height),
        board.len() == width * height,
        t.wf(width, height),
        0 <= ocol < width,
        0 <= orow < height,
        !board[cell_index(width, ocol, orow)].spec_is_empty(),
        forall|c: int, r: int|
            0 <= c < width && 0 <= r < height && (c, r) != (ocol, orow) ==> board[#[trigger]
            cell_index(width, c, r)].spec_is_empty(),
        forall|i: int| 0 <= i < 4 ==> #[trigger] t.abs_row(i) + 1 < height,
    ensures
        t.can_translate(Direction::Down, width, height, board) <==> !(exists|i: int|
            0 <= i < 4 && #[trigger] t.abs_col(i) == ocol && t.abs_row(i) + 1 == orow),
{
    if exists|i: int| 0 <= i < 4 && #[trigger] t.abs_col(i) == ocol && t.abs_row(i) + 1 == orow {
        let i = choose|i: int|
            0 <= i < 4 && #[trigger] t.abs_col(i) == ocol && t.abs_row(i) + 1 == orow;
        assert(!t.translate_ok(i, Direction::Down, width, height, board));
    } else {
        assert forall|i: int| 0 <= i < 4 implies t.translate_ok(
            i,
            Direction::Down,
            width,
            height,
            board,
        ) by {
            assert(t.block_in_bounds(i, width, height) && t.offset_in_scale(i, width, height));
            lemma_cell_index_in_range(width, height, t.abs_col(i), t.abs_row(i) + 1);
            assert((t.abs_col(i), t.abs_row(i) + 1) != (ocol, orow));
        }
    }
}

/// The transformed footprint of the piece lies inside its current
/// footprint: every block's rotated offset is again one of the piece's
/// own offsets.
pub open spec fn rotation_self_contained(t: Tetromino, direction: Direction) -> bool {
    forall|i: int|
        0 <= i < 4 ==> t.contains_rel(
            rel_after((#[trigger] t.blocks[i]).x as int, t.blocks[i].y as int, direction).0,
            rel_after(t.blocks[i].x as int, t.blocks[i].y as int, direction).1,
        )
}

/// The self-containment exemption: a well-formed piece whose transformed
/// footprint lies inside its current footprint reports rotatable whatever
/// the board holds.
pub proof fn lemma_rotate_self_footprint(
    t: Tetromino,
    direction: Direction,
    width: int,
    height: int,
    board: Seq<CellColor>,
)
    requires
        dims_ok(width, height),
        t.wf(width, height),
        rotation_self_contained(t, direction),
    ensures
        t.can_rotate_spec(direction, width, height, board),
{
    assert forall|i: int| 0 <= i < 4 implies t.rotate_ok(i, direction, width, height, board) by {
        let (rx, ry) = rel_after(t.blocks[i].x as int, t.blocks[i].y as int, direction);
        assert(t.contains_rel(rx, ry));
        let j = choose|j: int|
            0 <= j < 4 && (#[trigger] t.blocks[j]).x as int == rx && t.blocks[j].y as int == ry;
        assert(t.block_in_bounds(j, width, height) && t.offset_in_scale(j, width, height));
        assert(t.x as int + rx == t.abs_col(j));
    }
}

/// A legal rotation keeps the piece well-formed: each transformed block
/// lands either on the old footprint (in bounds because the old piece is
/// well-formed) or on a cell whose bounds the legality check tested.
pub proof fn lemma_rotation_preserves_wf(
    t: Tetromino,
    u: Tetromino,
    direction: Direction,
    width: int,
    height: int,
    board: Seq<CellColor>,
)
    requires
        dims_ok(width, height),
        t.wf(width, height),
        t.can_rotate_spec(direction, width, height, board),
        direction == Direction::Clockwise || direction == Direction::CounterClockwise,
        u.x == t.x,
        u.y == t.y,
        forall|i: int|
            0 <= i < 4 ==> ((#[trigger] u.blocks[i]).x as int, u.blocks[i].y as int) == rel_after(
                t.blocks[i].x as int,
                t.blocks[i].y as int,
                direction,
            ),
    ensures
        u.wf(width, height),
{
    assert forall|i: int| 0 <= i < 4 implies u.block_in_bounds(i, width, height)
        && u.offset_in_scale(i, width, height) by {
        assert(t.block_in_bounds(i, width, height) && t.offset_in_scale(i, width, height));
        assert(t.rotate_ok(i, direction, width, height, board));
        let (rx, ry) = rel_after(t.blocks[i].x as int, t.blocks[i].y as int, direction);
        if t.contains_rel(rx, ry) {
            let j = choose|j: int|
                0 <= j < 4 && (#[trigger] t.blocks[j]).x as int == rx && t.blocks[j].y as int
                    == ry;
            assert(t.block_in_bounds(j, width, height) && t.offset_in_scale(j, width, height));
            assert(u.abs_col(i) == t.abs_col(j) && u.abs_row(i) == t.abs_row(j));
        }
    }
}

/// The two rotation rules are asymmetric: applying Clockwise and then
/// CounterClockwise to a block offset is not an identity in general.
pub proof fn lemma_clockwise_then_counter_not_identity()
    ensures
        exists|p: (int, int)|
            #[trigger] rel_after(
                rel_after(p.0, p.1, Direction::Clockwise).0,
                rel_after(p.0, p.1, Direction::Clockwise).1,
                Direction::CounterClockwise,
            ) != p,
{
    let p = (1int, 0int);
    assert(rel_after(p.0, p.1, Direction::Clockwise) == (0int, -1int));
    assert(rel_after(0int, -1int, Direction::CounterClockwise) == (-1int, 0int));
    assert(rel_after(
        rel_after(p.0, p.1, Direction::Clockwise).0,
        rel_after(p.0, p.1, Direction::Clockwise).1,
        Direction::CounterClockwise,
    ) != p);
}

} // verus!
