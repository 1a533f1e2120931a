use vstd::prelude::*;

verus! {

/// The geometry of a terminal window, in character cells.
#[derive(Clone, Copy, Debug, PartialEq, Eq, Structural)]
pub struct Winszed {
    pub ws_row: u16,
    pub ws_col: u16,
}

impl Winszed {
    pub open spec fn rows(self) -> int {
        self.ws_row as int
    }

    pub open spec fn cols(self) -> int {
        self.ws_col as int
    }

    /// The number of cells of the grid.
    pub open spec fn area(self) -> int {
        self.rows() * self.cols()
    }

    /// Whether the window has cells at all; a window without any disables
    /// every change to the screen.
    pub open spec fn active(self) -> bool {
        self.ws_row > 0 && self.ws_col > 0
    }

    pub fn new(ws_row: u16, ws_col: u16) -> (r: Winszed)
        ensures
            r.ws_row == ws_row,
            r.ws_col == ws_col,
    {
        Winszed { ws_row, ws_col }
    }

    pub fn get_row(&self) -> (r: usize)
        ensures
            r == self.rows(),
    {
        self.ws_row as usize
    }

    pub fn get_col(&self) -> (r: usize)
        ensures
            r == self.cols(),
    {
        self.ws_col as usize
    }

    pub fn row_by_col(&self) -> (r: usize)
        ensures
            r == self.area(),
    {
        let rows = self.ws_row as usize;
        let cols = self.ws_col as usize;
        proof {
            lemma_area_fits(self.ws_row, self.ws_col);
        }
        rows * cols
    }
}

/// The area of a window always fits in `usize`.
pub proof fn lemma_area_fits(rows: u16, cols: u16)
    ensures
        0 <= (rows as int) * (cols as int) <= 0xFFFE0001,
        (rows as int) * (cols as int) <= usize::MAX,
{
    assert(0 <= (rows as int) * (cols as int) <= 0xFFFF * 0xFFFF) by (nonlinear_arith)
        requires
            0 <= rows <= 0xFFFF,
            0 <= cols <= 0xFFFF,
    ;
}

/// A window without rows or without columns has no cells.
pub proof fn lemma_inactive_area(size: Winszed)
    requires
        !size.active(),
    ensures
        size.area() == 0,
{
    assert(size.rows() * size.cols() == 0) by (nonlinear_arith)
        requires
            size.rows() == 0 || size.cols() == 0,
    ;
}

} // verus!
