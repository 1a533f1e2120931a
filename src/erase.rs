use vstd::prelude::*;
use crate::cells::{fill, fill_range, rotate_in, rotate_in_vec, rotate_out, rotate_out_vec};
use crate::character::Character;
use crate::display::{lemma_cursor_inside, Display};
use crate::scroll::lemma_row_offsets;
use crate::winsz::lemma_area_fits;

verus! {

/// The first row at or after `r` that ends in a boundary; `w.len()` if none.
pub open spec fn next_wrap(w: Seq<bool>, r: int) -> int
    decreases w.len() - r,
{
    if r >= w.len() {
        w.len() as int
    } else if r >= 0 && w[r] {
        r
    } else {
        next_wrap(w, r + 1)
    }
}

/// The last row before `r` that ends in a boundary; -1 if none.
pub open spec fn prev_wrap(w: Seq<bool>, r: int) -> int
    decreases r,
{
    if r <= 0 {
        -1
    } else if r - 1 < w.len() && w[r - 1] {
        r - 1
    } else {
        prev_wrap(w, r - 1)
    }
}

/// The grid after erasing from offset `p` to the end of its line (the next
/// row boundary); with no boundary below, from the cursor `pos` to the end.
pub open spec fn erased_right(s: Seq<Character>, w: Seq<bool>, c: int, p: int, pos: int, cell: Character) -> Seq<Character> {
    let r = next_wrap(w, p / c);
    if r < w.len() {
        fill(s, p, (r + 1) * c, cell)
    } else {
        fill(s, pos, s.len() as int, cell)
    }
}

/// The grid after erasing from the last cell of the previous line (the
/// previous row boundary) through offset `p`; with no boundary above, from
/// the top through the cursor `pos`.
pub open spec fn erased_left(s: Seq<Character>, w: Seq<bool>, c: int, p: int, pos: int, cell: Character) -> Seq<Character> {
    let r = prev_wrap(w, p / c);
    if r >= 0 {
        fill(s, r * c + c - 1, p + 1, cell)
    } else {
        fill(s, 0, pos + 1, cell)
    }
}

/// The grid after erasing `mv` whole lines, the first one holding the
/// pair `(x, y)`.
pub open spec fn erased_lines(
    s: Seq<Character>,
    w: Seq<bool>,
    c: int,
    pos: int,
    cell: Character,
    x: int,
    y: int,
    mv: nat,
) -> Seq<Character>
    decreases mv,
{
    if mv == 0 {
        s
    } else {
        let r = next_wrap(w, y);
        if r < w.len() {
            let p = x + y * c;
            let s2 = erased_right(erased_left(s, w, c, p, pos, cell), w, c, p, pos, cell);
            erased_lines(s2, w, c, pos, cell, c - 1, r + 1, (mv - 1) as nat)
        } else {
            fill(s, pos, s.len() as int, cell)
        }
    }
}

/// The end (exclusive) of the line that holds row `y`: the offset past the
/// next row boundary, or one before the end of the grid when none is below.
pub open spec fn line_border(w: Seq<bool>, c: int, len: int, y: int) -> int {
    let r = next_wrap(w, y);
    if r < w.len() {
        (r + 1) * c
    } else {
        len - 1
    }
}

pub proof fn lemma_next_wrap(w: Seq<bool>, r: int)
    requires
        0 <= r,
    ensures
        r <= next_wrap(w, r) <= w.len() || (r > w.len() && next_wrap(w, r) == w.len()),
        next_wrap(w, r) < w.len() ==> w[next_wrap(w, r)],
        forall|k: int| r <= k < next_wrap(w, r) && k < w.len() ==> !w[k],
    decreases w.len() - r,
{
    if r < w.len() && !w[r] {
        lemma_next_wrap(w, r + 1);
    }
}

pub proof fn lemma_prev_wrap(w: Seq<bool>, r: int)
    requires
        r <= w.len(),
    ensures
        -1 <= prev_wrap(w, r) < r || (r <= 0 && prev_wrap(w, r) == -1),
        prev_wrap(w, r) >= 0 ==> w[prev_wrap(w, r)],
    decreases r,
{
    if r > 0 && !w[r - 1] {
        lemma_prev_wrap(w, r - 1);
    }
}

/// Looking back from past the last row is looking back from the end.
pub proof fn lemma_prev_wrap_past_end(w: Seq<bool>, r: int)
    ensures
        r >= w.len() ==> prev_wrap(w, r) == prev_wrap(w, w.len() as int),
    decreases r,
{
    if r > w.len() {
        lemma_prev_wrap_past_end(w, r - 1);
    }
}

/// Finds the first row at or after `y` that ends in a boundary.
pub fn find_next_wrap(w: &Vec<bool>, y: usize) -> (r: usize)
    ensures
        r == next_wrap(w@, y as int) || (y > w@.len() && r == y && next_wrap(w@, y as int) == w@.len()),
        r >= w@.len() ==> next_wrap(w@, y as int) == w@.len(),
{
    let mut r: usize = y;
    while r < w.len() && !w[r]
        invariant
            y <= r,
            r <= w@.len() || r == y,
            next_wrap(w@, r as int) == next_wrap(w@, y as int),
        decreases w@.len() - r,
    {
        r = r + 1;
    }
    r
}

/// Finds the last row before `y` that ends in a boundary.
pub fn find_prev_wrap(w: &Vec<bool>, y: usize) -> (r: Option<usize>)
    requires
        y <= w@.len(),
    ensures
        r matches Some(k) ==> k == prev_wrap(w@, y as int),
        r is None ==> prev_wrap(w@, y as int) == -1,
{
    let mut r: usize = y;
    while r > 0
        invariant
            r <= y <= w@.len(),
            prev_wrap(w@, r as int) == prev_wrap(w@, y as int),
        decreases r,
    {
        if w[r - 1] {
            return Some(r - 1);
        }
        r = r - 1;
    }
    None
}

impl Display {
    /// Erases from the cursor to the end of the screen, the cursor's cell
    /// included.
    pub fn erase_down(&mut self)
        requires
            old(self).wf(),
        ensures
            final(self).wf(),
            final(self).table.screen@ == fill(
                old(self).table.screen@,
                old(self).table.pos as int,
                old(self).table.screen@.len() as int,
                old(self).table.collection,
            ),
            final(self).table.equiv(&crate::display::Table { screen: final(self).table.screen, ..old(self).table }),
            final(self).save_terminal == old(self).save_terminal,
    {
        let pos = self.table.pos;
        let len = self.table.screen.len();
        let collection = self.table.collection;
        fill_range(&mut self.table.screen, pos, len, collection);
    }

    /// Erases from the top of the screen through the cursor, the cursor's
    /// cell included.
    pub fn erase_up(&mut self)
        requires
            old(self).wf(),
        ensures
            final(self).wf(),
            final(self).table.screen@ == fill(
                old(self).table.screen@,
                0,
                old(self).table.pos + 1,
                old(self).table.collection,
            ),
            final(self).table.equiv(&crate::display::Table { screen: final(self).table.screen, ..old(self).table }),
            final(self).save_terminal == old(self).save_terminal,
    {
        let pos = self.table.pos;
        proof {
            lemma_area_fits(self.table.size.ws_row, self.table.size.ws_col);
            if self.table.size.active() {
                lemma_cursor_inside(self.table);
            }
        }
        let collection = self.table.collection;
        fill_range(&mut self.table.screen, 0, pos + 1, collection);
    }

    /// Erases from offset `pos` to the end of its line, `pos` included.
    pub fn erase_right_line(&mut self, pos: usize)
        requires
            old(self).wf(),
        ensures
            final(self).wf(),
            old(self).table.size.active() ==> final(self).table.screen@ == erased_right(
                old(self).table.screen@,
                old(self).table.newline@,
                old(self).table.cols(),
                pos as int,
                old(self).table.pos as int,
                old(self).table.collection,
            ),
            !old(self).table.size.active() ==> final(self).table.screen@ == old(self).table.screen@,
            final(self).table.equiv(&crate::display::Table { screen: final(self).table.screen, ..old(self).table }),
            final(self).save_terminal == old(self).save_terminal,
    {
        if !(self.table.size.ws_row > 0 && self.table.size.ws_col > 0) {
            return;
        }
        let cols = self.table.size.get_col();
        let r = find_next_wrap(&self.table.newline, pos / cols);
        if r < self.table.newline.len() {
            proof {
                lemma_row_offsets(r as int + 1, self.table.rows(), cols as int);
                lemma_area_fits(self.table.size.ws_row, self.table.size.ws_col);
            }
            let collection = self.table.collection;
            fill_range(&mut self.table.screen, pos, (r + 1) * cols, collection);
        } else {
            self.erase_down();
        }
    }

    /// Erases from the last cell of the previous line through offset `pos`.
    pub fn erase_left_line(&mut self, pos: usize)
        requires
            old(self).wf(),
        ensures
            final(self).wf(),
            old(self).table.size.active() ==> final(self).table.screen@ == erased_left(
                old(self).table.screen@,
                old(self).table.newline@,
                old(self).table.cols(),
                pos as int,
                old(self).table.pos as int,
                old(self).table.collection,
            ),
            !old(self).table.size.active() ==> final(self).table.screen@ == old(self).table.screen@,
            final(self).table.equiv(&crate::display::Table { screen: final(self).table.screen, ..old(self).table }),
            final(self).save_terminal == old(self).save_terminal,
    {
        if !(self.table.size.ws_row > 0 && self.table.size.ws_col > 0) {
            return;
        }
        let cols = self.table.size.get_col();
        let len = self.table.screen.len();
        let row = pos / cols;
        let y = if row < self.table.newline.len() { row } else { self.table.newline.len() };
        proof {
            lemma_area_fits(self.table.size.ws_row, self.table.size.ws_col);
            lemma_prev_wrap(self.table.newline@, y as int);
            lemma_prev_wrap_past_end(self.table.newline@, (pos as int) / (cols as int));
            if pos < len {
                let rows = self.table.rows();
                assert((pos as int) / (cols as int) < rows) by (nonlinear_arith)
                    requires
                        pos < rows * cols,
                        cols > 0,
                ;
            }
        }
        match find_prev_wrap(&self.table.newline, y) {
            Some(r) => {
                proof {
                    lemma_row_offsets(r as int, self.table.rows(), cols as int);
                }
                let to = if pos < len { pos + 1 } else { len };
                let collection = self.table.collection;
                fill_range(&mut self.table.screen, r * cols + cols - 1, to, collection);
            },
            None => {
                self.erase_up();
            },
        }
    }

    /// Erases `mv` whole lines, starting with the cursor's.
    pub fn erase_line(&mut self, mv: usize)
        requires
            old(self).wf(),
        ensures
            final(self).wf(),
            old(self).table.size.active() ==> final(self).table.screen@ == erased_lines(
                old(self).table.screen@,
                old(self).table.newline@,
                old(self).table.cols(),
                old(self).table.pos as int,
                old(self).table.collection,
                old(self).table.oob.0 as int,
                old(self).table.oob.1 as int,
                mv as nat,
            ),
            !old(self).table.size.active() ==> final(self).table.screen@ == old(self).table.screen@,
            final(self).table.equiv(&crate::display::Table { screen: final(self).table.screen, ..old(self).table }),
            final(self).save_terminal == old(self).save_terminal,
    {
        if !(self.table.size.ws_row > 0 && self.table.size.ws_col > 0) {
            return;
        }
        let cols = self.table.size.get_col();
        let mut x = self.table.oob.0;
        let mut y = self.table.oob.1;
        let mut left: usize = mv;
        while left > 0
            invariant
                self.wf(),
                old(self).table.size.active(),
                cols == old(self).table.cols(),
                x < cols,
                y <= old(self).table.rows(),
                self.table.equiv(&crate::display::Table { screen: self.table.screen, ..old(self).table }),
                self.save_terminal == old(self).save_terminal,
                erased_lines(
                    old(self).table.screen@,
                    old(self).table.newline@,
                    cols as int,
                    old(self).table.pos as int,
                    old(self).table.collection,
                    old(self).table.oob.0 as int,
                    old(self).table.oob.1 as int,
                    mv as nat,
                ) == erased_lines(
                    self.table.screen@,
                    old(self).table.newline@,
                    cols as int,
                    old(self).table.pos as int,
                    old(self).table.collection,
                    x as int,
                    y as int,
                    left as nat,
                ),
            decreases left,
        {
            let r = find_next_wrap(&self.table.newline, y);
            if r < self.table.newline.len() {
                proof {
                    lemma_row_offsets(y as int, self.table.rows(), cols as int);
                    lemma_area_fits(self.table.size.ws_row, self.table.size.ws_col);
                }
                let p = x + y * cols;
                self.erase_left_line(p);
                self.erase_right_line(p);
                x = cols - 1;
                y = r + 1;
                left = left - 1;
            } else {
                self.erase_down();
                return;
            }
        }
    }

    /// Deletes `mv` cells at the cursor; the rest of the line moves left and
    /// cells of the drawing style enter at the line's end.
    pub fn erase_chars(&mut self, mv: usize)
        requires
            old(self).wf(),
        ensures
            final(self).wf(),
            ({
                let t = old(self).table;
                let border = line_border(t.newline@, t.cols(), t.screen@.len() as int, t.oob.1 as int);
                if t.size.active() {
                    final(self).table.screen@ == rotate_out(
                        t.screen@,
                        t.pos as int,
                        border,
                        t.collection,
                        if mv < border - t.pos { mv as int } else { border - t.pos },
                    )
                } else {
                    final(self).table.screen@ == t.screen@
                }
            }),
            final(self).table.equiv(&crate::display::Table { screen: final(self).table.screen, ..old(self).table }),
            final(self).save_terminal == old(self).save_terminal,
    {
        if !(self.table.size.ws_row > 0 && self.table.size.ws_col > 0) {
            return;
        }
        let (pos, border) = self.line_window();
        let k = if mv < border - pos { mv } else { border - pos };
        let collection = self.table.collection;
        rotate_out_vec(&mut self.table.screen, pos, border, collection, k);
    }

    /// Inserts `mv` cells of the drawing style at the cursor; the rest of the
    /// line moves right and what passes the line's end is lost.
    pub fn insert_chars(&mut self, mv: usize)
        requires
            old(self).wf(),
        ensures
            final(self).wf(),
            ({
                let t = old(self).table;
                let border = line_border(t.newline@, t.cols(), t.screen@.len() as int, t.oob.1 as int);
                if t.size.active() {
                    final(self).table.screen@ == rotate_in(
                        t.screen@,
                        t.pos as int,
                        border,
                        t.collection,
                        if mv < border - t.pos { mv as int } else { border - t.pos },
                    )
                } else {
                    final(self).table.screen@ == t.screen@
                }
            }),
            final(self).table.equiv(&crate::display::Table { screen: final(self).table.screen, ..old(self).table }),
            final(self).save_terminal == old(self).save_terminal,
    {
        if !(self.table.size.ws_row > 0 && self.table.size.ws_col > 0) {
            return;
        }
        let (pos, border) = self.line_window();
        let k = if mv < border - pos { mv } else { border - pos };
        let collection = self.table.collection;
        rotate_in_vec(&mut self.table.screen, pos, border, collection, k);
    }

    /// The cursor's offset and the end of its line.
    fn line_window(&self) -> (r: (usize, usize))
        requires
            self.wf(),
            self.table.size.active(),
        ensures
            r.0 == self.table.pos,
            r.1 == line_border(self.table.newline@, self.table.cols(), self.table.screen@.len() as int, self.table.oob.1 as int),
            r.0 <= r.1 <= self.table.screen@.len(),
    {
        let cols = self.table.size.get_col();
        let pos = self.table.pos;
        proof {
            lemma_cursor_inside(self.table);
            lemma_area_fits(self.table.size.ws_row, self.table.size.ws_col);
            lemma_next_wrap(self.table.newline@, self.table.oob.1 as int);
        }
        let r = find_next_wrap(&self.table.newline, self.table.oob.1);
        if r < self.table.newline.len() {
            proof {
                lemma_row_offsets(r as int + 1, self.table.rows(), cols as int);
                lemma_row_offsets(self.table.oob.1 as int, r as int, cols as int);
                lemma_row_offsets(self.table.oob.1 + 1, r as int + 1, cols as int);
            }
            (pos, (r + 1) * cols)
        } else {
            (pos, self.table.screen.len() - 1)
        }
    }
}

} // verus!
