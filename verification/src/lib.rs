//! The active-piece engine of a falling-block puzzle game: the piece under
//! player control, and the decision whether a requested move (descend,
//! shift, rotate) is legal against the read-only contents of the play
//! field. Every bounds test uses one half-open convention: columns in
//! `[0, width)`, rows in `[0, height)`, row-major indices in
//! `[0, width * height)`.

/// The cell color value and its reserved empty sentinel.
pub mod color;
/// The row-major grid model shared by the legality checks.
pub mod grid;
/// The engine's laws: properties proved of the piece as a whole.
pub mod laws;
/// The piece itself: spawning, movement, rotation and their legality.
pub mod tetromino;
