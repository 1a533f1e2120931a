use vstd::prelude::*;
use crate::cells::{copies, extend_range, push_copies};
use crate::character::Character;
use crate::display::{Display, Table};
use crate::scroll::lemma_row_offsets;
use crate::winsz::{lemma_area_fits, Winszed};

verus! {

/// Row `y` of the grid resized from `oc` columns (and `or` rows) to `nc`
/// columns: the old row's first cells, then blank cells; a blank row past
/// the old rows.
pub open spec fn resized_row(s: Seq<Character>, or: int, oc: int, nc: int, y: int) -> Seq<Character> {
    let keep = if oc < nc { oc } else { nc };
    if y < or {
        s.subrange(y * oc, y * oc + keep) + copies(Character::spec_default(), nc - keep)
    } else {
        copies(Character::spec_default(), nc)
    }
}

/// The first `k` rows of the grid `s` of `or` rows and `oc` columns, resized
/// to `nc` columns.
pub open spec fn resized(s: Seq<Character>, or: int, oc: int, nc: int, k: nat) -> Seq<Character>
    decreases k,
{
    if k == 0 {
        Seq::empty()
    } else {
        resized(s, or, oc, nc, (k - 1) as nat) + resized_row(s, or, oc, nc, k - 1)
    }
}

/// The row flags after a resize to `nr` rows: old rows keep theirs, new
/// rows end in a boundary.
pub open spec fn resized_wraps(w: Seq<bool>, nr: int) -> Seq<bool> {
    Seq::new(nr as nat, |r: int| if r < w.len() { w[r] } else { true })
}

/// The scroll region after a resize from `or` to `nr` rows.
pub open spec fn resized_region(region: (usize, usize), or: int, nr: int) -> (usize, usize) {
    if nr > or {
        (region.0, if region.1 == or { nr as usize } else { region.1 })
    } else if nr < or {
        (
            if region.0 >= nr { (nr - 1) as usize } else { region.0 },
            if region.1 > nr { nr as usize } else { region.1 },
        )
    } else {
        region
    }
}

/// The cell at (`x`, `y`) of a resized grid: the old cell where the old
/// grid had one, a blank cell elsewhere.
pub proof fn lemma_resized_cell(s: Seq<Character>, or: int, oc: int, nc: int, k: nat, x: int, y: int)
    requires
        0 <= or,
        0 <= oc,
        0 <= nc,
        s.len() == or * oc,
        0 <= y < k,
        0 <= x < nc,
    ensures
        resized(s, or, oc, nc, k).len() == k * nc,
        resized(s, or, oc, nc, k)[y * nc + x] == (if y < or && x < oc {
            s[y * oc + x]
        } else {
            Character::spec_default()
        }),
    decreases k,
{
    lemma_resized_len(s, or, oc, nc, k);
    let prev = resized(s, or, oc, nc, (k - 1) as nat);
    lemma_resized_len(s, or, oc, nc, (k - 1) as nat);
    if y < k - 1 {
        lemma_resized_cell(s, or, oc, nc, (k - 1) as nat, x, y);
        assert(y * nc + x < (k - 1) * nc) by (nonlinear_arith)
            requires
                0 <= y < k - 1,
                0 <= x < nc,
        ;
    } else {
        assert(y * nc == (k - 1) * nc);
        if y < or {
            let keep = if oc < nc { oc } else { nc };
            assert(y * oc + keep <= or * oc) by (nonlinear_arith)
                requires
                    0 <= y < or,
                    0 <= keep <= oc,
            ;
            assert(0 <= y * oc) by (nonlinear_arith)
                requires
                    0 <= y,
                    0 <= oc,
            ;
        }
    }
}

pub proof fn lemma_resized_len(s: Seq<Character>, or: int, oc: int, nc: int, k: nat)
    requires
        0 <= or,
        0 <= oc,
        0 <= nc,
        s.len() == or * oc,
    ensures
        resized(s, or, oc, nc, k).len() == k * nc,
    decreases k,
{
    if k > 0 {
        lemma_resized_len(s, or, oc, nc, (k - 1) as nat);
        let keep = if oc < nc { oc } else { nc };
        if k - 1 < or {
            assert((k - 1) * oc + keep <= or * oc) by (nonlinear_arith)
                requires
                    0 <= k - 1 < or,
                    0 <= keep <= oc,
            ;
            assert(0 <= (k - 1) * oc) by (nonlinear_arith)
                requires
                    0 <= k - 1,
                    0 <= oc,
            ;
        }
        assert(resized_row(s, or, oc, nc, k - 1).len() == nc);
        assert((k - 1) * nc + nc == k * nc) by (nonlinear_arith);
    } else {
        assert(k * nc == 0) by (nonlinear_arith)
            requires
                k == 0,
        ;
    }
}

/// Growing a grid and shrinking it back to its first geometry gives the
/// grid back, cell for cell.
pub proof fn lemma_resize_round_trip(s: Seq<Character>, or: int, oc: int, nr: int, nc: int)
    requires
        0 <= or <= nr,
        0 <= oc <= nc,
        s.len() == or * oc,
    ensures
        resized(resized(s, or, oc, nc, nr as nat), nr, nc, oc, or as nat) == s,
{
    let g = resized(s, or, oc, nc, nr as nat);
    lemma_resized_len(s, or, oc, nc, nr as nat);
    let b = resized(g, nr, nc, oc, or as nat);
    lemma_resized_len(g, nr, nc, oc, or as nat);
    assert forall|i: int| 0 <= i < s.len() implies b[i] == s[i] by {
        let y = i / oc;
        let x = i % oc;
        assert(i == y * oc + x && 0 <= x < oc && 0 <= y < or) by (nonlinear_arith)
            requires
                0 <= i < or * oc,
                oc > 0,
                y == i / oc,
                x == i % oc,
        ;
        lemma_resized_cell(g, nr, nc, oc, or as nat, x, y);
        lemma_resized_cell(s, or, oc, nc, nr as nat, x, y);
    }
    assert(b =~= s);
}

/// Keeping a cell through two resizes: a cell that lies inside every one of
/// the three geometries is where it was.
pub proof fn lemma_resize_keeps_cell(
    s: Seq<Character>,
    r0: int,
    c0: int,
    r1: int,
    c1: int,
    r2: int,
    c2: int,
    x: int,
    y: int,
)
    requires
        0 <= r0,
        0 <= c0,
        0 <= r1,
        0 <= c1,
        0 <= c2,
        s.len() == r0 * c0,
        0 <= x,
        x < c0,
        x < c1,
        x < c2,
        0 <= y,
        y < r0,
        y < r1,
        y < r2,
    ensures
        resized(resized(s, r0, c0, c1, r1 as nat), r1, c1, c2, r2 as nat)[y * c2 + x] == s[y * c0 + x],
{
    let g = resized(s, r0, c0, c1, r1 as nat);
    lemma_resized_len(s, r0, c0, c1, r1 as nat);
    lemma_resized_cell(g, r1, c1, c2, r2 as nat, x, y);
    lemma_resized_cell(s, r0, c0, c1, r1 as nat, x, y);
}

/// Builds the resized grid row by row.
fn resize_cells(s: &Vec<Character>, or: usize, oc: usize, nr: usize, nc: usize) -> (r: Vec<Character>)
    requires
        s@.len() == or * oc,
        or <= 0xFFFF,
        oc <= 0xFFFF,
        nr <= 0xFFFF,
        nc <= 0xFFFF,
    ensures
        r@ == resized(s@, or as int, oc as int, nc as int, nr as nat),
{
    let mut out: Vec<Character> = Vec::new();
    let keep = if oc < nc { oc } else { nc };
    let mut y: usize = 0;
    while y < nr
        invariant
            y <= nr <= 0xFFFF,
            s@.len() == or * oc,
            or <= 0xFFFF,
            oc <= 0xFFFF,
            nc <= 0xFFFF,
            keep == (if oc < nc { oc } else { nc }),
            out@ == resized(s@, or as int, oc as int, nc as int, y as nat),
        decreases nr - y,
    {
        if y < or {
            proof {
                lemma_row_offsets(y as int, or as int, oc as int);
                lemma_area_fits(or as u16, oc as u16);
            }
            let start = y * oc;
            extend_range(&mut out, s, start, start + keep);
            push_copies(&mut out, Character::default(), nc - keep);
        } else {
            push_copies(&mut out, Character::default(), nc);
        }
        y = y + 1;
    }
    out
}

/// Builds the row flags of the resized grid.
fn resize_wraps(w: &Vec<bool>, nr: usize) -> (r: Vec<bool>)
    ensures
        r@ == resized_wraps(w@, nr as int),
{
    let mut out: Vec<bool> = Vec::new();
    let mut y: usize = 0;
    while y < nr
        invariant
            y <= nr,
            out@ =~= resized_wraps(w@, nr as int).subrange(0, y as int),
        decreases nr - y,
    {
        if y < w.len() {
            out.push(w[y]);
        } else {
            out.push(true);
        }
        y = y + 1;
    }
    proof {
        assert(resized_wraps(w@, nr as int).subrange(0, nr as int) =~= resized_wraps(w@, nr as int));
    }
    out
}

impl Display {
    /// `self` is `o` resized to the geometry `size`, which has cells (see
    /// `resize_with`).
    pub open spec fn resized_from(&self, o: &Display, size: Winszed) -> bool {
        let t = o.table;
        let nr = size.rows();
        let nc = size.cols();
        let y = if t.oob.1 >= nr { nr - 1 } else { t.oob.1 as int };
        let x0 = if t.oob.1 >= nr { t.cols() - 1 } else { t.oob.0 as int };
        let x = if x0 < nc { x0 } else { nc - 1 };
        &&& self.table.size == size
        &&& self.table.screen@ == resized(
            t.uncursored(),
            t.rows(),
            t.cols(),
            nc,
            nr as nat,
        )
        &&& self.table.newline@ == resized_wraps(t.newline@, nr)
        &&& self.table.region == resized_region(t.region, t.rows(), nr)
        &&& self.table.oob == (x as usize, y as usize)
        &&& self.table.equiv(
            &Table {
                size: size,
                screen: self.table.screen,
                newline: self.table.newline,
                region: self.table.region,
                oob: self.table.oob,
                pos: self.table.pos,
                ..t
            },
        )
    }

    /// Resizes the screen to a new geometry, keeping the cells that fit; a
    /// geometry without rows or without columns changes nothing.
    ///
    /// Cells that the old grid lacks are blank; rows that the old grid lacks
    /// end in a boundary; a scroll region that reached the old last row
    /// reaches the new one; a cursor on a row that is cut moves to the old
    /// last column of the new last row, and a cursor column that is cut moves
    /// to the new last column. The cursor's marking is taken off first.
    pub fn resize_with(&mut self, size: &Winszed)
        requires
            old(self).wf(),
        ensures
            final(self).wf(),
            final(self).save_terminal == old(self).save_terminal,
            !size.active() ==> *final(self) == *old(self),
            size.active() ==> final(self).resized_from(old(self), *size),
    {
        if !(size.ws_row > 0 && size.ws_col > 0) {
            return;
        }
        if self.table.show_cursor {
            self.clear_cursor();
        }
        let or = self.table.size.get_row();
        let oc = self.table.size.get_col();
        let nr = size.get_row();
        let nc = size.get_col();
        proof {
            lemma_area_fits(size.ws_row, size.ws_col);
            lemma_resized_len(self.table.screen@, or as int, oc as int, nc as int, nr as nat);
        }
        let screen = resize_cells(&self.table.screen, or, oc, nr, nc);
        let newline = resize_wraps(&self.table.newline, nr);
        let (top, end) = self.table.region;
        let region = if nr > or {
            (top, if end == or { nr } else { end })
        } else if nr < or {
            (if top >= nr { nr - 1 } else { top }, if end > nr { nr } else { end })
        } else {
            (top, end)
        };
        let (cx, cy) = self.table.oob;
        let y = if cy >= nr { nr - 1 } else { cy };
        let x0 = if cy >= nr { if oc > 0 { oc - 1 } else { 0 } } else { cx };
        let x = if x0 < nc { x0 } else { nc - 1 };
        proof {
            if cy >= nr {
                assert(self.table.size.active());
            }
            crate::display::lemma_offset_inside(x as int, y as int, nc as int, nr as int);
        }
        self.table.screen = screen;
        self.table.newline = newline;
        self.table.region = region;
        self.table.size = *size;
        self.table.oob = (x, y);
        self.table.pos = x + y * nc;
    }
}

/// Growing a screen whose cursor is hidden and shrinking it back to its
/// first geometry gives back every cell.
pub proof fn lemma_display_resize_round_trip(a: Display, b: Display, c: Display, size: Winszed)
    requires
        a.wf(),
        !a.table.show_cursor,
        size.active(),
        a.table.size.ws_row <= size.ws_row,
        a.table.size.ws_col <= size.ws_col,
        b.resized_from(&a, size),
        a.table.size.active(),
        c.resized_from(&b, a.table.size),
    ensures
        c.table.screen@ == a.table.screen@,
        c.table.size == a.table.size,
{
    lemma_resize_round_trip(a.table.screen@, a.table.rows(), a.table.cols(), size.rows(), size.cols());
}

impl Display {
    /// Replaces the window geometry, resizing the screen to it (a geometry
    /// without cells changes nothing).
    pub fn set_window_size(&mut self, size: &Winszed)
        requires
            old(self).wf(),
        ensures
            final(self).wf(),
            final(self).save_terminal == old(self).save_terminal,
            !size.active() ==> *final(self) == *old(self),
            size.active() ==> final(self).resized_from(old(self), *size),
    {
        self.resize_with(size);
    }
}

} // verus!
