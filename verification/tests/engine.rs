use tetromino_core::color::CellColor;
use tetromino_core::tetromino::Block;
use tetromino_core::tetromino::Direction;
use tetromino_core::tetromino::Tetromino;

fn empty_board(width: i32, height: i32) -> Vec<CellColor> {
    vec![CellColor::empty(); (width * height) as usize]
}

fn occupied() -> CellColor {
    CellColor::rgba(100, 0, 0, 100)
}

fn set_cell(board: &mut Vec<CellColor>, width: i32, col: i32, row: i32, c: CellColor) {
    board[(col + width * row) as usize] = c;
}

fn o_piece(x: i32, y: i32) -> Tetromino {
    Tetromino {
        x,
        y,
        color: CellColor::rgba(0, 100, 0, 100),
        blocks: [
            Block { x: 0, y: 0 },
            Block { x: 0, y: 1 },
            Block { x: 1, y: 0 },
            Block { x: 1, y: 1 },
        ],
        direction: Direction::Down,
    }
}

#[test]
fn cell_color_empty_sentinel() {
    assert!(CellColor::empty().is_empty());
    assert!(!CellColor::rgba(0, 0, 0, 100).is_empty());
    assert!(!occupied().is_empty());
}

#[test]
fn transform_translations_are_unit_steps() {
    let t = o_piece(4, 0);
    let b = Block { x: 3, y: -2 };
    assert_eq!(t.get_new_block_pos(b, Direction::Down), (3, -1));
    assert_eq!(t.get_new_block_pos(b, Direction::Left), (2, -2));
    assert_eq!(t.get_new_block_pos(b, Direction::Right), (4, -2));
}

#[test]
fn clockwise_branches_on_y_boundary() {
    let t = o_piece(4, 0);
    // y >= 0 sends (x, y) to (y, -x); y < 0 sends it to (y, x)
    assert_eq!(t.get_new_block_pos(Block { x: 5, y: 1 }, Direction::Clockwise), (1, -5));
    assert_eq!(t.get_new_block_pos(Block { x: 5, y: 0 }, Direction::Clockwise), (0, -5));
    assert_eq!(t.get_new_block_pos(Block { x: 5, y: -1 }, Direction::Clockwise), (-1, 5));
}

#[test]
fn counterclockwise_branches_on_y_boundary() {
    let t = o_piece(4, 0);
    // y > 0 sends (x, y) to (-y, x); y <= 0 sends it to (y, x)
    assert_eq!(t.get_new_block_pos(Block { x: 5, y: 1 }, Direction::CounterClockwise), (-1, 5));
    assert_eq!(t.get_new_block_pos(Block { x: 5, y: 0 }, Direction::CounterClockwise), (0, 5));
    assert_eq!(t.get_new_block_pos(Block { x: 5, y: -1 }, Direction::CounterClockwise), (-1, 5));
}

#[test]
fn clockwise_then_counterclockwise_is_not_identity() {
    let t = o_piece(4, 0);
    let cw = t.get_new_block_pos(Block { x: 1, y: 0 }, Direction::Clockwise);
    assert_eq!(cw, (0, -1));
    let back = t.get_new_block_pos(Block { x: cw.0, y: cw.1 }, Direction::CounterClockwise);
    assert_eq!(back, (-1, 0));
    assert_ne!(back, (1, 0));
}

#[test]
fn o_piece_descends_to_floor() {
    let (width, height) = (10, 20);
    let board = empty_board(width, height);
    let mut t = o_piece(4, 0);
    // The piece spans rows y and y + 1, so the last legal anchor row is 18:
    // 18 downward moves succeed and the next one is rejected.
    for step in 1..=18 {
        assert!(t.move_down(width, height, &board), "step {} should succeed", step);
        assert_eq!(t.y, step);
    }
    assert!(!t.move_down(width, height, &board));
    assert_eq!(t.y, 18);
    assert_eq!(t.y + 1, height - 1);
    // rejection is stable: the piece did not change
    assert!(!t.move_down(width, height, &board));
    assert_eq!((t.x, t.y), (4, 18));
}

#[test]
fn move_down_lands_exactly_on_single_occupied_cell() {
    let (width, height) = (10, 20);
    let mut board = empty_board(width, height);
    set_cell(&mut board, width, 4, 5, occupied());
    // a block would land on (4, 5): rejected, piece unchanged
    let mut t = o_piece(4, 3);
    assert!(!t.move_down(width, height, &board));
    assert_eq!((t.x, t.y), (4, 3));
    // one column to the right nothing lands on (4, 5): accepted
    let mut u = o_piece(5, 3);
    assert!(u.move_down(width, height, &board));
    assert_eq!((u.x, u.y), (5, 4));
}

#[test]
fn left_moves_until_wall_then_keeps_failing() {
    let (width, height) = (10, 20);
    let board = empty_board(width, height);
    let mut t = o_piece(3, 5);
    assert!(t.move_to_side(Direction::Left, width, height, &board));
    assert!(t.move_to_side(Direction::Left, width, height, &board));
    assert!(t.move_to_side(Direction::Left, width, height, &board));
    assert_eq!(t.x, 0);
    assert!(!t.move_to_side(Direction::Left, width, height, &board));
    assert!(!t.move_to_side(Direction::Left, width, height, &board));
    assert_eq!((t.x, t.y), (0, 5));
}

#[test]
fn right_moves_until_wall() {
    let (width, height) = (10, 20);
    let board = empty_board(width, height);
    let mut t = o_piece(4, 5);
    for expected in 5..=8 {
        assert!(t.move_to_side(Direction::Right, width, height, &board));
        assert_eq!(t.x, expected);
    }
    assert!(!t.move_to_side(Direction::Right, width, height, &board));
    assert_eq!(t.x, 8);
}

#[test]
fn sideways_move_blocked_by_occupied_cell() {
    let (width, height) = (10, 20);
    let mut board = empty_board(width, height);
    set_cell(&mut board, width, 2, 6, occupied());
    let mut t = o_piece(3, 5);
    assert!(!t.move_to_side(Direction::Left, width, height, &board));
    assert_eq!(t.x, 3);
}

#[test]
fn sideways_ignores_other_requests() {
    let (width, height) = (10, 20);
    let board = empty_board(width, height);
    let mut t = o_piece(4, 5);
    assert!(t.move_to_side(Direction::Down, width, height, &board));
    assert!(t.move_to_side(Direction::Clockwise, width, height, &board));
    assert_eq!((t.x, t.y), (4, 5));
}

#[test]
fn rotate_applies_piecewise_transform() {
    let mut t = Tetromino {
        x: 5,
        y: 5,
        color: CellColor::rgba(25, 75, 25, 100),
        blocks: [
            Block { x: 1, y: 0 },
            Block { x: 0, y: 0 },
            Block { x: -1, y: 0 },
            Block { x: 0, y: 1 },
        ],
        direction: Direction::Down,
    };
    t.rotate(Direction::Clockwise);
    assert_eq!(t.blocks[0], Block { x: 0, y: -1 });
    assert_eq!(t.blocks[1], Block { x: 0, y: 0 });
    assert_eq!(t.blocks[2], Block { x: 0, y: 1 });
    assert_eq!(t.blocks[3], Block { x: 1, y: 0 });
    assert_eq!((t.x, t.y), (5, 5));
}

#[test]
fn rotate_ignores_translation_requests() {
    let mut t = o_piece(4, 5);
    let before = t.blocks;
    t.rotate(Direction::Left);
    assert_eq!(t.blocks, before);
    assert_eq!((t.x, t.y), (4, 5));
}

#[test]
fn self_contained_rotation_legal_on_full_board() {
    let (width, height) = (10, 20);
    let board = vec![occupied(); (width * height) as usize];
    // this footprint maps onto itself under the Clockwise rule, so the
    // occupancy test is skipped for every block
    let t = Tetromino {
        x: 5,
        y: 5,
        color: CellColor::rgba(100, 0, 100, 100),
        blocks: [
            Block { x: 0, y: 0 },
            Block { x: 1, y: 1 },
            Block { x: 1, y: -1 },
            Block { x: -1, y: 1 },
        ],
        direction: Direction::Down,
    };
    assert!(t.can_rotate(Direction::Clockwise, width, height, &board));
}

#[test]
fn rotation_blocked_only_by_cells_off_own_footprint() {
    let (width, height) = (10, 20);
    let mut board = empty_board(width, height);
    let t = Tetromino {
        x: 5,
        y: 5,
        color: CellColor::rgba(25, 75, 25, 100),
        blocks: [
            Block { x: 1, y: 0 },
            Block { x: 0, y: 0 },
            Block { x: -1, y: 0 },
            Block { x: 0, y: 1 },
        ],
        direction: Direction::Down,
    };
    assert!(t.can_rotate(Direction::Clockwise, width, height, &board));
    // the only block that leaves the footprint lands on (5, 4)
    set_cell(&mut board, width, 5, 4, occupied());
    assert!(!t.can_rotate(Direction::Clockwise, width, height, &board));
}

#[test]
fn is_contained_in_self_finds_own_offsets() {
    let t = o_piece(4, 5);
    assert!(t.is_contained_in_self(Block { x: 1, y: 1 }));
    assert!(t.is_contained_in_self(Block { x: 0, y: 0 }));
    assert!(!t.is_contained_in_self(Block { x: -1, y: 0 }));
}

#[test]
fn get_blocks_returns_offsets() {
    let t = o_piece(4, 5);
    let blocks = t.get_blocks();
    assert_eq!(blocks[0], Block { x: 0, y: 0 });
    assert_eq!(blocks[3], Block { x: 1, y: 1 });
}

#[test]
fn create_tetromino_leaves_piece_alone() {
    let mut t = o_piece(4, 5);
    t.create_tetromino();
    assert_eq!((t.x, t.y), (4, 5));
    assert_eq!(t.blocks[1], Block { x: 0, y: 1 });
}
