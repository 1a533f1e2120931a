use vstd::prelude::*;
use crate::cells::{copies, fill, rotate_in, rotate_in_vec, rotate_out, rotate_out_vec};
use crate::character::Character;
use crate::display::{lemma_cursor_inside, Display};
use crate::winsz::lemma_area_fits;

verus! {

/// Row arithmetic on a row-major grid of `c` columns.
pub proof fn lemma_row_offsets(a: int, b: int, c: int)
    requires
        0 <= a <= b,
        0 <= c,
    ensures
        a * c <= b * c,
        (a + 1) * c == a * c + c,
        a < b ==> a * c + c <= b * c,
{
    assert(a * c <= b * c) by (nonlinear_arith)
        requires
            0 <= a <= b,
            0 <= c,
    ;
    assert((a + 1) * c == a * c + c) by (nonlinear_arith);
    if a < b {
        assert((a + 1) * c <= b * c) by (nonlinear_arith)
            requires
                0 <= a + 1 <= b,
                0 <= c,
        ;
    }
}

/// The row flags after the region `[.., end)` scrolls up at row `base`: the
/// flag of `base` goes, the rows below it move up, and the last row of the
/// region ends in a boundary.
pub open spec fn wraps_scrolled_up(w: Seq<bool>, base: int, end: int) -> Seq<bool> {
    w.remove(base).insert(end - 1, true)
}

/// The row flags after the region `[top, end)` scrolls down: the flag of its
/// last row goes (unless that row is the last of the screen and had one), the
/// rows move down, and the top row ends in a boundary.
pub open spec fn wraps_scrolled_down(w: Seq<bool>, top: int, end: int) -> Seq<bool> {
    let moved = w.remove(end - 1).insert(top, true);
    if end == w.len() && w[end - 1] {
        moved.update(end - 1, true)
    } else {
        moved
    }
}

/// Scrolling a region up at a row and then down at the same row gives the
/// grid back, except the row scrolled out at `base`, which comes back as a
/// row of the cell that filled the region; so where that row held only that
/// cell, the grid comes back whole.
pub proof fn lemma_scroll_round_trip(s: Seq<Character>, base: int, end: int, cols: int, cell: Character)
    requires
        0 <= base < end,
        0 <= cols,
        end * cols <= s.len(),
    ensures
        rotate_in(rotate_out(s, base * cols, end * cols, cell, cols), base * cols, end * cols, cell, cols)
            == fill(s, base * cols, base * cols + cols, cell),
        s.subrange(base * cols, base * cols + cols) == copies(cell, cols) ==> rotate_in(
            rotate_out(s, base * cols, end * cols, cell, cols),
            base * cols,
            end * cols,
            cell,
            cols,
        ) == s,
{
    lemma_row_offsets(base, end, cols);
    let a = base * cols;
    let e = end * cols;
    let up = rotate_out(s, a, e, cell, cols);
    let back = rotate_in(up, a, e, cell, cols);
    assert(up.len() == s.len());
    assert(back =~= fill(s, a, a + cols, cell));
    if s.subrange(a, a + cols) == copies(cell, cols) {
        assert forall|i: int| a <= i < a + cols implies s[i] == cell by {
            assert(s.subrange(a, a + cols)[i - a] == s[i]);
        }
        assert(back =~= s);
    }
}

/// On a screen whose cursor is hidden, scrolling up at a row of the scroll
/// region and then down at the same row gives the grid back, but for the row
/// at `base`, which comes back filled with the drawing style.
pub proof fn lemma_display_scroll_round_trip(a: Display, b: Display, c: Display, base: int)
    requires
        a.wf(),
        a.table.size.active(),
        !a.table.show_cursor,
        0 <= base < a.table.region.1,
        b.scrolled_up_from(&a, base),
        c.scrolled_down_from(&b, base),
    ensures
        c.table.screen@ == fill(
            a.table.screen@,
            base * a.table.cols(),
            base * a.table.cols() + a.table.cols(),
            a.table.collection,
        ),
{
    let t = a.table;
    lemma_row_offsets(t.region.1 as int, t.rows(), t.cols());
    lemma_scroll_round_trip(t.screen@, base, t.region.1 as int, t.cols(), t.collection);
}

impl Display {
    /// `self` is `o` after its region scrolled up at row `base` (see
    /// `scroll_up`).
    pub open spec fn scrolled_up_from(&self, o: &Display, base: int) -> bool {
        &&& self.table.oob == o.table.oob
        &&& self.table.pos == o.table.pos
        &&& self.table.same_settings(&o.table)
        &&& self.save_terminal == o.save_terminal
        &&& o.table.size.active() && base < o.table.region.1 ==> {
                let t = o.table;
                let c = t.cols();
                &&& self.table.screen@ == rotate_out(
                    t.uncursored(),
                    base * c,
                    t.region.1 * c,
                    t.collection,
                    c,
                )
                &&& self.table.newline@ == wraps_scrolled_up(t.newline@, base as int, t.region.1 as int)
            }
        &&& !(o.table.size.active() && base < o.table.region.1) ==> *self == *o
    }

    /// `self` is `o` after its region scrolled down at row `base` (see
    /// `scroll_down`).
    pub open spec fn scrolled_down_from(&self, o: &Display, base: int) -> bool {
        &&& self.table.oob == o.table.oob
        &&& self.table.pos == o.table.pos
        &&& self.table.same_settings(&o.table)
        &&& self.save_terminal == o.save_terminal
        &&& o.table.size.active() && base < o.table.region.1 ==> {
                let t = o.table;
                let c = t.cols();
                &&& self.table.screen@ == rotate_in(
                    t.uncursored(),
                    base * c,
                    t.region.1 * c,
                    t.collection,
                    c,
                )
                &&& self.table.newline@ == wraps_scrolled_down(
                    t.newline@,
                    t.region.0 as int,
                    t.region.1 as int,
                )
            }
        &&& !(o.table.size.active() && base < o.table.region.1) ==> *self == *o
    }

    /// `self` is `o` after a line feed (see `print_enter`).
    pub open spec fn entered_from(&self, o: &Display) -> bool {
        &&& ({
                let t = o.table;
                if !t.size.active() {
                    *self == *o
                } else if t.oob.1 + 1 < t.region.1 {
                    self.moved_from(o, t.oob.0 as int, t.oob.1 + 1)
                } else if t.oob.1 + 1 == t.region.1 {
                    &&& self.table.oob == t.oob
                    &&& self.table.pos == t.pos
                    &&& self.table.same_settings(&t)
                    &&& self.save_terminal == o.save_terminal
                    &&& self.table.screen@ == rotate_out(
                        t.uncursored(),
                        t.region.0 * t.cols(),
                        t.region.1 * t.cols(),
                        t.collection,
                        t.cols(),
                    )
                    &&& self.table.newline@ == wraps_scrolled_up(
                        t.newline@,
                        t.region.0 as int,
                        t.region.1 as int,
                    )
                } else {
                    *self == *o
                }
            })
    }

    /// Scrolls the region up at row `base`: row `base` leaves, the rows below
    /// it up to the region's end move up one, and a row of the drawing style
    /// enters at the region's last row. The cursor stays.
    pub fn scroll_up(&mut self, base: usize)
        requires
            old(self).wf(),
        ensures
            final(self).wf(),
            final(self).scrolled_up_from(old(self), base as int),
    {
        if !(self.table.size.ws_row > 0 && self.table.size.ws_col > 0) || base >= self.table.region.1 {
            return;
        }
        let cols = self.table.size.get_col();
        let end = self.table.region.1;
        let collection = self.table.collection;
        if self.table.show_cursor {
            self.clear_cursor();
        }
        proof {
            lemma_row_offsets(base as int, end as int, cols as int);
            lemma_row_offsets(end as int, self.table.rows(), cols as int);
            lemma_area_fits(self.table.size.ws_row, self.table.size.ws_col);
        }
        self.table.newline.remove(base);
        self.table.newline.insert(end - 1, true);
        rotate_out_vec(&mut self.table.screen, base * cols, end * cols, collection, cols);
    }

    /// Scrolls the region down at row `base`: a row of the drawing style
    /// enters at `base`, the rows below it move down one, and the region's
    /// last row leaves. The cursor stays.
    pub fn scroll_down(&mut self, base: usize)
        requires
            old(self).wf(),
        ensures
            final(self).wf(),
            final(self).scrolled_down_from(old(self), base as int),
    {
        if !(self.table.size.ws_row > 0 && self.table.size.ws_col > 0) || base >= self.table.region.1 {
            return;
        }
        let cols = self.table.size.get_col();
        let rows = self.table.size.get_row();
        let top = self.table.region.0;
        let end = self.table.region.1;
        let collection = self.table.collection;
        if self.table.show_cursor {
            self.clear_cursor();
        }
        proof {
            lemma_row_offsets(base as int, end as int, cols as int);
            lemma_row_offsets(end as int, self.table.rows(), cols as int);
            lemma_area_fits(self.table.size.ws_row, self.table.size.ws_col);
        }
        let ghost w = self.table.newline@;
        let kept = end == rows && self.table.newline[end - 1];
        self.table.newline.remove(end - 1);
        self.table.newline.insert(top, true);
        if kept {
            self.table.newline.set(end - 1, true);
        }
        assert(self.table.newline@ == wraps_scrolled_down(w, top as int, end as int));
        rotate_in_vec(&mut self.table.screen, base * cols, end * cols, collection, cols);
    }

    /// A line feed: the cursor moves down a row, except on the last row of the
    /// scroll region, where the region scrolls up instead.
    pub fn print_enter(&mut self)
        requires
            old(self).wf(),
        ensures
            final(self).wf(),
            final(self).entered_from(old(self)),
    {
        if !(self.table.size.ws_row > 0 && self.table.size.ws_col > 0) {
            return;
        }
        let y = self.table.oob.1;
        if y + 1 < self.table.region.1 {
            self.goto_down(1);
        } else if y + 1 == self.table.region.1 {
            let top = self.table.region.0;
            self.scroll_up(top);
        }
    }

    /// Inserts `mv` rows of the drawing style at the cursor, pushing the rest
    /// of the scroll region down; what passes the region's end is lost. Does
    /// nothing when the cursor is below the region.
    pub fn insert_empty_line(&mut self, mv: usize)
        requires
            old(self).wf(),
        ensures
            final(self).wf(),
            final(self).table.oob == old(self).table.oob,
            final(self).table.pos == old(self).table.pos,
            final(self).table.newline@ == old(self).table.newline@,
            final(self).table.same_settings(&old(self).table),
            final(self).save_terminal == old(self).save_terminal,
            ({
                let t = old(self).table;
                let end = t.region.1 * t.cols();
                let n = mv * t.cols();
                if t.size.active() && t.pos < end {
                    final(self).table.screen@ == rotate_in(
                        t.screen@,
                        t.pos as int,
                        end,
                        t.collection,
                        if n < end - t.pos { n } else { end - t.pos },
                    )
                } else {
                    final(self).table.screen@ == t.screen@
                }
            }),
    {
        if !(self.table.size.ws_row > 0 && self.table.size.ws_col > 0) {
            return;
        }
        let cols = self.table.size.get_col();
        proof {
            lemma_row_offsets(self.table.region.1 as int, self.table.rows(), cols as int);
            lemma_area_fits(self.table.size.ws_row, self.table.size.ws_col);
        }
        let end = self.table.region.1 * cols;
        let pos = self.table.pos;
        if pos >= end {
            return;
        }
        let rows = self.table.size.get_row();
        let k = if mv > rows {
            proof {
                lemma_row_offsets(rows as int, mv as int, cols as int);
                lemma_row_offsets(self.table.region.1 as int, rows as int, cols as int);
            }
            end - pos
        } else {
            proof {
                lemma_row_offsets(mv as int, rows as int, cols as int);
            }
            let n = mv * cols;
            if n < end - pos { n } else { end - pos }
        };
        let collection = self.table.collection;
        rotate_in_vec(&mut self.table.screen, pos, end, collection, k);
    }
}

} // verus!
