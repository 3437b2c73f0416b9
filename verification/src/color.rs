use vstd::prelude::*;

verus! {

/// One cell of the play field: an RGBA color with each channel given in
/// hundredths of full intensity (0 through 100). The all-zero value is the
/// reserved sentinel that marks an unoccupied cell; every other value marks
/// an occupied cell.
#[derive(Clone, Copy, Debug, PartialEq, Eq, Structural)]
pub struct CellColor {
    pub red: u8,
    pub green: u8,
    pub blue: u8,
    pub alpha: u8,
}

impl CellColor {
    /// Whether this value is the empty sentinel: fully transparent black.
    pub open spec fn spec_is_empty(self) -> bool {
        self.red == 0 && self.green == 0 && self.blue == 0 && self.alpha == 0
    }

    /// The empty sentinel itself.
    pub fn empty() -> (c: CellColor)
        ensures
            c.spec_is_empty(),
    {
        CellColor { red: 0, green: 0, blue: 0, alpha: 0 }
    }

    pub fn rgba(red: u8, green: u8, blue: u8, alpha: u8) -> (c: CellColor)
        ensures
            c == (CellColor { red, green, blue, alpha }),
    {
        CellColor { red, green, blue, alpha }
    }

    /// Whether this cell value marks an unoccupied cell.
    pub fn is_empty(&self) -> (r: bool)
        ensures
            r == self.spec_is_empty(),
    {
        self.red == 0 && self.green == 0 && self.blue == 0 && self.alpha == 0
    }
}

} // verus!
