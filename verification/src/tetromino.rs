use vstd::prelude::*;
use crate::color::CellColor;
use crate::grid::cell_index;
use crate::grid::lemma_cell_index_in_range;
use rand::Rng;

verus! {

/// A movement or rotation request, and the facing tag a piece is spawned
/// with. Left, Right and Down are unit translations; Clockwise and
/// CounterClockwise select the piecewise relative-position transform.
#[derive(Clone, Copy, Debug, PartialEq, Eq, Structural)]
pub enum Direction {
    Left,
    Right,
    Down,
    Clockwise,
    CounterClockwise,
}

/// One unit cell of a piece, as an `(x, y)` offset relative to the piece's
/// anchor.
#[derive(Clone, Copy, Debug, PartialEq, Eq, Structural)]
pub struct Block {
    pub x: i32,
    pub y: i32,
}

/// The currently falling piece: an anchor in grid coordinates, four block
/// offsets relative to the anchor, a color, and the facing tag set at
/// spawn time (never read again after spawn).
#[derive(Clone, Copy, Debug)]
pub struct Tetromino {
    pub x: i32,
    pub y: i32,
    pub color: CellColor,
    pub blocks: [Block; 4],
    pub direction: Direction,
}

/// Where a block offset moves under one request: unit steps for the three
/// translations, and the game's piecewise sign-dependent rule for the two
/// rotations. The rotation rule is deliberately not a rotation matrix:
/// Clockwise sends `(x, y)` to `(y, -x)` only when `y >= 0` and to
/// `(y, x)` otherwise, while CounterClockwise sends it to `(-y, x)` only
/// when `y > 0` and to `(y, x)` otherwise.
pub open spec fn rel_after(bx: int, by: int, direction: Direction) -> (int, int) {
    match direction {
        Direction::Down => (bx, by + 1),
        Direction::Left => (bx - 1, by),
        Direction::Right => (bx + 1, by),
        Direction::Clockwise => if by >= 0 { (by, -bx) } else { (by, bx) },
        Direction::CounterClockwise => if by > 0 { (-by, bx) } else { (by, bx) },
    }
}

/// Grid dimensions the engine accepts: positive, and small enough that
/// every cell coordinate and every row-major index the engine computes
/// fits in an `i32`.
pub open spec fn dims_ok(width: int, height: int) -> bool {
    &&& 0 < width <= 0x1000_0000
    &&& 0 < height <= 0x1000_0000
    &&& width * height <= 0x4000_0000
}

/// The four block offsets of catalog shape `k` (1 through 7), in their
/// order-significant spawn order; any draw outside the catalog gets the
/// defensive fallback of four zero offsets.
pub open spec fn catalog_offsets(k: int) -> Seq<(int, int)> {
    if k == 1 {
        seq![(0, -1), (0, 0), (0, 1), (0, 2)]
    } else if k == 2 {
        seq![(0, 0), (0, 1), (1, 0), (1, 1)]
    } else if k == 3 {
        seq![(0, -1), (0, 0), (0, 1), (1, 1)]
    } else if k == 4 {
        seq![(0, -1), (0, 0), (0, 1), (-1, 1)]
    } else if k == 5 {
        seq![(-1, 0), (0, 0), (0, 1), (1, 1)]
    } else if k == 6 {
        seq![(1, 0), (0, 0), (0, 1), (-1, 1)]
    } else if k == 7 {
        seq![(1, 0), (0, 0), (-1, 0), (0, 1)]
    } else {
        seq![(0, 0), (0, 0), (0, 0), (0, 0)]
    }
}

/// The color of catalog shape `k`; a draw outside the catalog falls back
/// to shape 1's red.
pub open spec fn catalog_color(k: int) -> CellColor {
    if k == 2 {
        CellColor { red: 0, green: 100, blue: 0, alpha: 100 }
    } else if k == 3 {
        CellColor { red: 0, green: 0, blue: 100, alpha: 100 }
    } else if k == 4 {
        CellColor { red: 100, green: 100, blue: 0, alpha: 100 }
    } else if k == 5 {
        CellColor { red: 100, green: 0, blue: 100, alpha: 100 }
    } else if k == 6 {
        CellColor { red: 0, green: 100, blue: 100, alpha: 100 }
    } else if k == 7 {
        CellColor { red: 25, green: 75, blue: 25, alpha: 100 }
    } else {
        CellColor { red: 100, green: 0, blue: 0, alpha: 100 }
    }
}

/// `t` is exactly the piece that draw `k` spawns at anchor `(x, y)`:
/// catalog blocks and color, facing Down.
pub open spec fn is_spawn(t: Tetromino, k: int, x: i32, y: i32) -> bool {
    &&& t.x == x
    &&& t.y == y
    &&& t.direction == Direction::Down
    &&& t.color == catalog_color(k)
    &&& forall|i: int|
        0 <= i < 4 ==> ((#[trigger] t.blocks[i]).x as int, t.blocks[i].y as int)
            == catalog_offsets(k)[i]
}

/// Relies on rand::Rng::gen_range (through rand::thread_rng): it returns
/// a value inside the given range, here `1..8`, and panics only on an
/// empty range, which `1..8` is not.
#[verifier::external_body]
fn random_shape_index() -> (r: i32)
    ensures
        1 <= r < 8,
{
    rand::thread_rng().gen_range(1..8)
}

impl Tetromino {
    /// Absolute column of block `i`.
    pub open spec fn abs_col(self, i: int) -> int {
        self.x as int + self.blocks[i].x as int
    }

    /// Absolute row of block `i`.
    pub open spec fn abs_row(self, i: int) -> int {
        self.y as int + self.blocks[i].y as int
    }

    /// Block `i` sits inside the half-open grid bounds.
    pub open spec fn block_in_bounds(self, i: int, width: int, height: int) -> bool {
        0 <= self.abs_col(i) < width && 0 <= self.abs_row(i) < height
    }

    /// Block `i`'s offset is bounded by the board scale. Rotations only
    /// swap and negate the two coordinates, so a bound symmetric in both
    /// is kept by every operation.
    pub open spec fn offset_in_scale(self, i: int, width: int, height: int) -> bool {
        &&& -(width + height) <= self.blocks[i].x as int <= width + height
        &&& -(width + height) <= self.blocks[i].y as int <= width + height
    }

    /// Well-formed against a grid: every block's absolute position lies in
    /// `[0, width) x [0, height)` and every offset is bounded by the board
    /// scale.
    pub open spec fn wf(self, width: int, height: int) -> bool {
        forall|i: int|
            #![trigger self.block_in_bounds(i, width, height)]
            #![trigger self.offset_in_scale(i, width, height)]
            0 <= i < 4 ==> self.block_in_bounds(i, width, height) && self.offset_in_scale(
                i,
                width,
                height,
            )
    }

    /// The piece holds `(rx, ry)` among its four relative offsets.
    pub open spec fn contains_rel(self, rx: int, ry: int) -> bool {
        exists|i: int|
            0 <= i < 4 && (#[trigger] self.blocks[i]).x as int == rx && self.blocks[i].y as int
                == ry
    }

    /// Spawn a new piece at the given anchor: the shape index is drawn
    /// uniformly from the seven-entry catalog and the piece is built from
    /// it, facing Down. The draw is the only randomness; its range matches
    /// the catalog exactly, so the defensive fallback shape never spawns
    /// from here.
    pub fn new(x: i32, y: i32) -> (t: Tetromino)
        ensures
            exists|k: int| 1 <= k <= 7 && is_spawn(t, k, x, y),
    {
        let k = random_shape_index();
        let t = Tetromino::from_shape_index(k, x, y);
        proof {
            assert(1 <= k as int <= 7 && is_spawn(t, k as int, x, y));
        }
        t
    }

    /// Build the piece that draw `k` spawns at anchor `(x, y)`: the
    /// catalog blocks and color for `k` between 1 and 7, and the defensive
    /// fallback (four zero offsets, shape 1's red) for any other draw.
    pub fn from_shape_index(k: i32, x: i32, y: i32) -> (t: Tetromino)
        ensures
            is_spawn(t, k as int, x, y),
    {
        let (blocks, color): ([Block; 4], CellColor) = if k == 1 {
            (
                [
                    Block { x: 0, y: -1 },
                    Block { x: 0, y: 0 },
                    Block { x: 0, y: 1 },
                    Block { x: 0, y: 2 },
                ],
                CellColor { red: 100, green: 0, blue: 0, alpha: 100 },
            )
        } else if k == 2 {
            (
                [
                    Block { x: 0, y: 0 },
                    Block { x: 0, y: 1 },
                    Block { x: 1, y: 0 },
                    Block { x: 1, y: 1 },
                ],
                CellColor { red: 0, green: 100, blue: 0, alpha: 100 },
            )
        } else if k == 3 {
            (
                [
                    Block { x: 0, y: -1 },
                    Block { x: 0, y: 0 },
                    Block { x: 0, y: 1 },
                    Block { x: 1, y: 1 },
                ],
                CellColor { red: 0, green: 0, blue: 100, alpha: 100 },
            )
        } else if k == 4 {
            (
                [
                    Block { x: 0, y: -1 },
                    Block { x: 0, y: 0 },
                    Block { x: 0, y: 1 },
                    Block { x: -1, y: 1 },
                ],
                CellColor { red: 100, green: 100, blue: 0, alpha: 100 },
            )
        } else if k == 5 {
            (
                [
                    Block { x: -1, y: 0 },
                    Block { x: 0, y: 0 },
                    Block { x: 0, y: 1 },
                    Block { x: 1, y: 1 },
                ],
                CellColor { red: 100, green: 0, blue: 100, alpha: 100 },
            )
        } else if k == 6 {
            (
                [
                    Block { x: 1, y: 0 },
                    Block { x: 0, y: 0 },
                    Block { x: 0, y: 1 },
                    Block { x: -1, y: 1 },
                ],
                CellColor { red: 0, green: 100, blue: 100, alpha: 100 },
            )
        } else if k == 7 {
            (
                [
                    Block { x: 1, y: 0 },
                    Block { x: 0, y: 0 },
                    Block { x: -1, y: 0 },
                    Block { x: 0, y: 1 },
                ],
                CellColor { red: 25, green: 75, blue: 25, alpha: 100 },
            )
        } else {
            (
                [
                    Block { x: 0, y: 0 },
                    Block { x: 0, y: 0 },
                    Block { x: 0, y: 0 },
                    Block { x: 0, y: 0 },
                ],
                CellColor { red: 100, green: 0, blue: 0, alpha: 100 },
            )
        };
        Tetromino { x, y, direction: Direction::Down, blocks, color }
    }

    /// Pure relative-position transform: the offset `block` would have
    /// after one request, leaving the piece itself untouched.
    pub fn get_new_block_pos(&self, block: Block, direction: Direction) -> (r: (i32, i32))
        requires
            direction == Direction::Down ==> block.y < i32::MAX,
            direction == Direction::Left ==> block.x > i32::MIN,
            direction == Direction::Right ==> block.x < i32::MAX,
            direction == Direction::Clockwise && block.y >= 0 ==> block.x > i32::MIN,
        ensures
            (r.0 as int, r.1 as int) == rel_after(block.x as int, block.y as int, direction),
    {
        match direction {
            Direction::Down => (block.x, block.y + 1),
            Direction::Left => (block.x - 1, block.y),
            Direction::Right => (block.x + 1, block.y),
            Direction::Clockwise => {
                if block.y >= 0 {
                    (block.y, -block.x)
                } else {
                    (block.y, block.x)
                }
            },
            Direction::CounterClockwise => {
                if block.y > 0 {
                    (-block.y, block.x)
                } else {
                    (block.y, block.x)
                }
            },
        }
    }

    /// The absolute cell block `i` would occupy after one request.
    pub open spec fn target_cell(self, i: int, direction: Direction) -> (int, int) {
        let (rx, ry) = rel_after(self.blocks[i].x as int, self.blocks[i].y as int, direction);
        (self.x as int + rx, self.y as int + ry)
    }

    /// One block's translated target is legal: inside the half-open grid
    /// bounds and on an unoccupied cell.
    pub open spec fn translate_ok(
        self,
        i: int,
        direction: Direction,
        width: int,
        height: int,
        board: Seq<CellColor>,
    ) -> bool {
        let (col, row) = self.target_cell(i, direction);
        &&& 0 <= col < width
        &&& 0 <= row < height
        &&& board[cell_index(width, col, row)].spec_is_empty()
    }

    /// A whole translation request (Down, Left or Right) is legal: every
    /// block's shifted cell is in bounds and unoccupied.
    pub open spec fn can_translate(
        self,
        direction: Direction,
        width: int,
        height: int,
        board: Seq<CellColor>,
    ) -> bool {
        forall|i: int| 0 <= i < 4 ==> self.translate_ok(i, direction, width, height, board)
    }

    /// Try to move the piece one row down. The move is legal exactly when
    /// every block's down-shifted cell stays above row `height` and is
    /// unoccupied; on success only the anchor row advances by one, and a
    /// rejected move leaves the piece untouched (the driver reads that
    /// rejection as the signal to lock the piece).
    #[verifier::loop_isolation(false)]
    pub fn move_down(&mut self, width: i32, height: i32, board: &Vec<CellColor>) -> (r: bool)
        requires
            dims_ok(width as int, height as int),
            old(self).wf(width as int, height as int),
            board@.len() == width as int * height as int,
        ensures
            r == old(self).can_translate(
                Direction::Down,
                width as int,
                height as int,
                board@,
            ),
            r ==> final(self).y as int == old(self).y as int + 1,
            !r ==> *final(self) == *old(self),
            final(self).x == old(self).x,
            final(self).blocks == old(self).blocks,
            final(self).color == old(self).color,
            final(self).direction == old(self).direction,
            final(self).wf(width as int, height as int),
    {
        let ghost w = width as int;
        let ghost h = height as int;
        let mut can_move = true;
        let mut i: usize = 0;
        while i < 4
            invariant
                i <= 4,
                can_move ==> forall|j: int|
                    0 <= j < i ==> self.translate_ok(j, Direction::Down, w, h, board@),
                !can_move ==> !self.can_translate(Direction::Down, w, h, board@),
            decreases 4 - i,
        {
            if can_move {
                let block = self.blocks[i];
                proof {
                    assert(self.block_in_bounds(i as int, w, h) && self.offset_in_scale(
                        i as int,
                        w,
                        h,
                    ));
                }
                let shifted_block = self.get_new_block_pos(block, Direction::Down);
                if shifted_block.1 + self.y >= height {
                    can_move = false;
                    proof {
                        assert(!self.translate_ok(i as int, Direction::Down, w, h, board@));
                    }
                } else {
                    proof {
                        lemma_cell_index_in_range(w, h, self.abs_col(i as int), self.abs_row(i as int) + 1);
                    }
                    let current_index = (shifted_block.0 + self.x) + width * (shifted_block.1
                        + self.y);
                    if !board[current_index as usize].is_empty() {
                        can_move = false;
                        proof {
                            assert(!self.translate_ok(i as int, Direction::Down, w, h, board@));
                        }
                    }
                }
            }
            i += 1;
        }
        if can_move {
            proof {
                assert(self.block_in_bounds(0, width as int, height as int)
                    && self.offset_in_scale(0, width as int, height as int));
            }
            self.y = self.y + 1;
            proof {
                assert forall|k: int| 0 <= k < 4 implies self.block_in_bounds(k, w, h)
                    && self.offset_in_scale(k, w, h) by {
                    assert(old(self).translate_ok(k, Direction::Down, w, h, board@));
                    assert(old(self).block_in_bounds(k, w, h) && old(self).offset_in_scale(
                        k,
                        w,
                        h,
                    ));
                }
            }
        }
        can_move
    }

    /// Try to move the piece one column to the side. Only Left and Right
    /// requests move the piece; any other request leaves it unchanged and
    /// reports success, as a no-op. A legal step keeps every block's
    /// shifted cell inside the half-open bounds and unoccupied; on success
    /// only the anchor column changes by one.
    #[verifier::loop_isolation(false)]
    pub fn move_to_side(
        &mut self,
        direction: Direction,
        width: i32,
        height: i32,
        board: &Vec<CellColor>,
    ) -> (r: bool)
        requires
            dims_ok(width as int, height as int),
            old(self).wf(width as int, height as int),
            board@.len() == width as int * height as int,
        ensures
            direction == Direction::Left || direction == Direction::Right ==> r == old(
                self).can_translate(direction, width as int, height as int, board@),
            !(direction == Direction::Left || direction == Direction::Right) ==> r && final(
                self).x == old(self).x,
            r && direction == Direction::Left ==> final(self).x as int == old(self).x as int - 1,
            r && direction == Direction::Right ==> final(self).x as int == old(self).x as int + 1,
            !r ==> final(self).x == old(self).x,
            final(self).y == old(self).y,
            final(self).blocks == old(self).blocks,
            final(self).color == old(self).color,
            final(self).direction == old(self).direction,
            final(self).wf(width as int, height as int),
    {
        let ghost w = width as int;
        let ghost h = height as int;
        let mut can_move = true;
        match direction {
            Direction::Left => {
                let mut i: usize = 0;
                while i < 4
                    invariant
                        i <= 4,
                        can_move ==> forall|j: int|
                            0 <= j < i ==> self.translate_ok(j, Direction::Left, w, h, board@),
                        !can_move ==> !self.can_translate(Direction::Left, w, h, board@),
                    decreases 4 - i,
                {
                    if can_move {
                        let block = self.blocks[i];
                        proof {
                            assert(self.block_in_bounds(i as int, w, h) && self.offset_in_scale(
                                i as int,
                                w,
                                h,
                            ));
                        }
                        let shifted_block = self.get_new_block_pos(block, Direction::Left);
                        if shifted_block.0 + self.x < 0 {
                            can_move = false;
                            proof {
                                assert(!self.translate_ok(i as int, Direction::Left, w, h, board@));
                            }
                        } else {
                            proof {
                                lemma_cell_index_in_range(
                                    w,
                                    h,
                                    self.abs_col(i as int) - 1,
                                    self.abs_row(i as int),
                                );
                            }
                            let current_index = (shifted_block.0 + self.x) + width * (
                            shifted_block.1 + self.y);
                            if current_index < 0 || current_index >= width * height {
                                can_move = false;
                            } else if !board[current_index as usize].is_empty() {
                                can_move = false;
                                proof {
                                    assert(!self.translate_ok(
                                        i as int,
                                        Direction::Left,
                                        w,
                                        h,
                                        board@,
                                    ));
                                }
                            }
                        }
                    }
                    i += 1;
                }
                if can_move {
                    proof {
                        assert(self.block_in_bounds(0, w, h) && self.offset_in_scale(0, w, h));
                    }
                    self.x = self.x - 1;
                    proof {
                        assert forall|k: int| 0 <= k < 4 implies self.block_in_bounds(k, w, h)
                            && self.offset_in_scale(k, w, h) by {
                            assert(old(self).translate_ok(k, Direction::Left, w, h, board@));
                            assert(old(self).block_in_bounds(k, w, h) && old(
                                self).offset_in_scale(k, w, h));
                        }
                    }
                }
            },
            Direction::Right => {
                let mut i: usize = 0;
                while i < 4
                    invariant
                        i <= 4,
                        can_move ==> forall|j: int|
                            0 <= j < i ==> self.translate_ok(j, Direction::Right, w, h, board@),
                        !can_move ==> !self.can_translate(Direction::Right, w, h, board@),
                    decreases 4 - i,
                {
                    if can_move {
                        let block = self.blocks[i];
                        proof {
                            assert(self.block_in_bounds(i as int, w, h) && self.offset_in_scale(
                                i as int,
                                w,
                                h,
                            ));
                        }
                        let shifted_block = self.get_new_block_pos(block, Direction::Right);
                        if shifted_block.0 + self.x >= width {
                            can_move = false;
                            proof {
                                assert(!self.translate_ok(
                                    i as int,
                                    Direction::Right,
                                    w,
                                    h,
                                    board@,
                                ));
                            }
                        } else {
                            proof {
                                lemma_cell_index_in_range(
                                    w,
                                    h,
                                    self.abs_col(i as int) + 1,
                                    self.abs_row(i as int),
                                );
                            }
                            let current_index = (shifted_block.0 + self.x) + width * (
                            shifted_block.1 + self.y);
                            if current_index < 0 || current_index >= width * height {
                                can_move = false;
                            } else if !board[current_index as usize].is_empty() {
                                can_move = false;
                                proof {
                                    assert(!self.translate_ok(
                                        i as int,
                                        Direction::Right,
                                        w,
                                        h,
                                        board@,
                                    ));
                                }
                            }
                        }
                    }
                    i += 1;
                }
                if can_move {
                    proof {
                        assert(self.block_in_bounds(0, w, h) && self.offset_in_scale(0, w, h));
                    }
                    self.x = self.x + 1;
                    proof {
                        assert forall|k: int| 0 <= k < 4 implies self.block_in_bounds(k, w, h)
                            && self.offset_in_scale(k, w, h) by {
                            assert(old(self).translate_ok(k, Direction::Right, w, h, board@));
                            assert(old(self).block_in_bounds(k, w, h) && old(
                                self).offset_in_scale(k, w, h));
                        }
                    }
                }
            },
            _ => {},
        }
        can_move
    }

    /// One block's rotated target is legal: its column is inside the
    /// bounds and it lands either on the piece's own current footprint
    /// (then the cell test is skipped) or on an in-bounds unoccupied cell.
    pub open spec fn rotate_ok(
        self,
        i: int,
        direction: Direction,
        width: int,
        height: int,
        board: Seq<CellColor>,
    ) -> bool {
        let (rx, ry) = rel_after(self.blocks[i].x as int, self.blocks[i].y as int, direction);
        let col = self.x as int + rx;
        let row = self.y as int + ry;
        &&& 0 <= col < width
        &&& (self.contains_rel(rx, ry) || (0 <= row < height && board[
            cell_index(width, col, row)].spec_is_empty()))
    }

    /// A whole rotation request is legal.
    pub open spec fn can_rotate_spec(
        self,
        direction: Direction,
        width: int,
        height: int,
        board: Seq<CellColor>,
    ) -> bool {
        forall|i: int| 0 <= i < 4 ==> self.rotate_ok(i, direction, width, height, board)
    }

    /// Whether a rotation request is legal against the given board. For
    /// every block the transformed offset is computed; the check fails if
    /// its column leaves the bounds, and otherwise tests the target cell
    /// for occupancy unless that offset already belongs to the piece's own
    /// current footprint (rotating into oneself is always legal). The
    /// piece itself is not changed; `rotate` commits the move.
    #[verifier::loop_isolation(false)]
    pub fn can_rotate(
        &self,
        direction: Direction,
        width: i32,
        height: i32,
        board: &Vec<CellColor>,
    ) -> (r: bool)
        requires
            dims_ok(width as int, height as int),
            self.wf(width as int, height as int),
            board@.len() == width as int * height as int,
        ensures
            r == self.can_rotate_spec(direction, width as int, height as int, board@),
    {
        let ghost w = width as int;
        let ghost h = height as int;
        let mut rotatable = true;
        let mut i: usize = 0;
        while i < 4
            invariant
                i <= 4,
                rotatable ==> forall|j: int|
                    0 <= j < i ==> self.rotate_ok(j, direction, w, h, board@),
                !rotatable ==> !self.can_rotate_spec(direction, w, h, board@),
            decreases 4 - i,
        {
            if rotatable {
                let block = self.blocks[i];
                proof {
                    assert(self.block_in_bounds(i as int, w, h) && self.offset_in_scale(
                        i as int,
                        w,
                        h,
                    ));
                }
                let rotated_block = self.get_new_block_pos(block, direction);
                let col = rotated_block.0 + self.x;
                if col < 0 || col >= width {
                    rotatable = false;
                    proof {
                        assert(!self.rotate_ok(i as int, direction, w, h, board@));
                    }
                } else if self.is_contained_in_self(
                    Block { x: rotated_block.0, y: rotated_block.1 },
                ) {
                    // rotating onto the piece's own footprint: always legal
                } else {
                    let row = rotated_block.1 + self.y;
                    if row < 0 || row >= height {
                        rotatable = false;
                        proof {
                            assert(!self.rotate_ok(i as int, direction, w, h, board@));
                        }
                    } else {
                        proof {
                            lemma_cell_index_in_range(w, h, col as int, row as int);
                        }
                        let index = col + width * row;
                        if !board[index as usize].is_empty() {
                            rotatable = false;
                            proof {
                                assert(!self.rotate_ok(i as int, direction, w, h, board@));
                            }
                        }
                    }
                }
            }
            i += 1;
        }
        rotatable
    }

    /// Whether the given offset coincides with one of the piece's own four
    /// current block offsets.
    #[verifier::loop_isolation(false)]
    pub fn is_contained_in_self(&self, block: Block) -> (r: bool)
        ensures
            r == self.contains_rel(block.x as int, block.y as int),
    {
        let mut found_self = false;
        let mut i: usize = 0;
        while i < 4
            invariant
                i <= 4,
                found_self ==> self.contains_rel(block.x as int, block.y as int),
                !found_self ==> forall|j: int|
                    0 <= j < i ==> !((#[trigger] self.blocks[j]).x == block.x && self.blocks[j].y
                        == block.y),
            decreases 4 - i,
        {
            let b = self.blocks[i];
            if b.x == block.x && b.y == block.y {
                found_self = true;
            }
            i += 1;
        }
        found_self
    }

    /// Apply the relative-position transform to every block in place,
    /// mutating the offsets and leaving the anchor alone. No legality
    /// check is made here: the driver is expected to consult `can_rotate`
    /// first and call this only on a legal request. Translation requests
    /// leave the piece unchanged.
    pub fn rotate(&mut self, direction: Direction)
        requires
            direction == Direction::Clockwise ==> forall|i: int|
                0 <= i < 4 ==> ((#[trigger] old(self).blocks[i]).y >= 0 ==> old(self).blocks[i].x
                    > i32::MIN),
        ensures
            final(self).x == old(self).x,
            final(self).y == old(self).y,
            final(self).color == old(self).color,
            final(self).direction == old(self).direction,
            direction == Direction::Clockwise || direction == Direction::CounterClockwise
                ==> forall|i: int|
                0 <= i < 4 ==> ((#[trigger] final(self).blocks[i]).x as int,
                final(self).blocks[i].y as int) == rel_after(
                    old(self).blocks[i].x as int,
                    old(self).blocks[i].y as int,
                    direction,
                ),
            !(direction == Direction::Clockwise || direction == Direction::CounterClockwise)
                ==> final(self).blocks == old(self).blocks,
    {
        match direction {
            Direction::Clockwise | Direction::CounterClockwise => {
                let p0 = self.get_new_block_pos(self.blocks[0], direction);
                let p1 = self.get_new_block_pos(self.blocks[1], direction);
                let p2 = self.get_new_block_pos(self.blocks[2], direction);
                let p3 = self.get_new_block_pos(self.blocks[3], direction);
                self.blocks = [
                    Block { x: p0.0, y: p0.1 },
                    Block { x: p1.0, y: p1.1 },
                    Block { x: p2.0, y: p2.1 },
                    Block { x: p3.0, y: p3.1 },
                ];
            },
            _ => {},
        }
    }

    /// The four relative block offsets, for rendering or for locking the
    /// piece into the board by the driver.
    pub fn get_blocks(&self) -> (r: [Block; 4])
        ensures
            r == self.blocks,
    {
        self.blocks
    }

    /// Present for interface parity with the driver: a piece is already
    /// complete when spawned, so there is nothing left to fill in.
    pub fn create_tetromino(&mut self)
        ensures
            *final(self) == *old(self),
    {
    }
}

} // verus!
