use vstd::prelude::*;
use crate::cells::{copies, extend_range, new_copies};
use crate::character::{Attribute, Character, Color, Operate};
use crate::winsz::{lemma_area_fits, lemma_inactive_area, Winszed};

verus! {

/// The whole state of a screen.
///
/// The grid is row-major; `pos` is the flat offset of the cursor and `oob`
/// its (column, row) pair. `newline` holds one flag per row: whether the
/// row ends in a line boundary at its last column, as opposed to running on
/// into the next row.
pub struct Table {
    pub save_position: (usize, usize),
    pub show_cursor: bool,
    pub mouse_handle: (bool, bool, bool, bool),
    pub ss_mod: bool,
    pub newline: Vec<bool>,
    pub region: (usize, usize),
    pub collection: Character,
    pub oob: (usize, usize),
    pub line_wrap: bool,
    pub size: Winszed,
    pub screen: Vec<Character>,
    pub pos: usize,
    pub bell: usize,
}

/// The cell style that marks the cursor while it is shown.
pub open spec fn cursor_operate() -> Operate {
    Operate { attribute: Attribute::Dim.spec_bit(), foreground: Color::Red, background: Color::Cyan }
}

/// `s` with the style of cell `i` replaced by `op`, the glyph kept.
pub open spec fn restyle(s: Seq<Character>, i: int, op: Operate) -> Seq<Character> {
    if 0 <= i < s.len() {
        s.update(i, Character { glyph: s[i].glyph, operate: op })
    } else {
        s
    }
}

/// A flag for each of `n` rows, all set.
pub open spec fn all_wraps(n: int) -> Seq<bool> {
    Seq::new(n as nat, |_i: int| true)
}

/// The boundary entries `(column, row)` that the per-row flags stand for,
/// in row order.
pub open spec fn newline_pairs(w: Seq<bool>, cols: int) -> Seq<(usize, usize)>
    decreases w.len(),
{
    if w.len() == 0 {
        Seq::empty()
    } else {
        let p = newline_pairs(w.drop_last(), cols);
        if w.last() {
            p.push(((cols - 1) as usize, (w.len() - 1) as usize))
        } else {
            p
        }
    }
}

/// Where every row ends in a boundary, the boundary entries are exactly one
/// per row, each at the last column.
pub proof fn lemma_all_wraps_pairs(rows: int, cols: int)
    requires
        0 <= rows,
    ensures
        newline_pairs(all_wraps(rows), cols) == Seq::new(rows as nat, |r: int| ((cols - 1) as usize, r as usize)),
    decreases rows,
{
    if rows > 0 {
        lemma_all_wraps_pairs(rows - 1, cols);
        assert(all_wraps(rows).drop_last() =~= all_wraps(rows - 1));
        assert(newline_pairs(all_wraps(rows), cols) =~= Seq::new(
            rows as nat,
            |r: int| ((cols - 1) as usize, r as usize),
        ));
    } else {
        assert(newline_pairs(all_wraps(rows), cols) =~= Seq::new(
            rows as nat,
            |r: int| ((cols - 1) as usize, r as usize),
        ));
    }
}

impl Table {
    pub open spec fn rows(&self) -> int {
        self.size.rows()
    }

    pub open spec fn cols(&self) -> int {
        self.size.cols()
    }

    /// The cursor stays on the grid, and its offset and its pair agree.
    pub open spec fn cursor_ok(&self) -> bool {
        if self.size.active() {
            &&& self.oob.0 < self.cols()
            &&& self.oob.1 < self.rows()
            &&& self.pos == self.oob.0 + self.oob.1 * self.cols()
        } else {
            self.pos == 0 && self.oob == (0usize, 0usize)
        }
    }

    pub open spec fn wf(&self) -> bool {
        &&& self.screen@.len() == self.size.area()
        &&& self.newline@.len() == self.rows()
        &&& self.region.0 <= self.region.1 <= self.rows()
        &&& self.rows() > 0 ==> self.region.0 < self.region.1
        &&& self.cursor_ok()
    }

    /// The grid once the cursor's marking is taken off its cell.
    pub open spec fn uncursored(&self) -> Seq<Character> {
        if self.show_cursor {
            restyle(self.screen@, self.pos as int, self.collection.operate)
        } else {
            self.screen@
        }
    }

    /// The same state: equal fields, vectors compared by their contents.
    pub open spec fn equiv(&self, o: &Table) -> bool {
        &&& self.save_position == o.save_position
        &&& self.show_cursor == o.show_cursor
        &&& self.mouse_handle == o.mouse_handle
        &&& self.ss_mod == o.ss_mod
        &&& self.newline@ == o.newline@
        &&& self.region == o.region
        &&& self.collection == o.collection
        &&& self.oob == o.oob
        &&& self.line_wrap == o.line_wrap
        &&& self.size == o.size
        &&& self.screen@ == o.screen@
        &&& self.pos == o.pos
        &&& self.bell == o.bell
    }

    /// The fields that only the mode sequences change are equal.
    pub open spec fn same_settings(&self, o: &Table) -> bool {
        &&& self.save_position == o.save_position
        &&& self.show_cursor == o.show_cursor
        &&& self.mouse_handle == o.mouse_handle
        &&& self.ss_mod == o.ss_mod
        &&& self.region == o.region
        &&& self.collection == o.collection
        &&& self.line_wrap == o.line_wrap
        &&& self.size == o.size
        &&& self.bell == o.bell
    }

    /// A copy of the table.
    pub fn duplicate(&self) -> (r: Table)
        ensures
            r.equiv(self),
    {
        let mut screen: Vec<Character> = Vec::new();
        extend_range(&mut screen, &self.screen, 0, self.screen.len());
        proof {
            assert(self.screen@.subrange(0, self.screen@.len() as int) == self.screen@);
            assert(Seq::<Character>::empty() + self.screen@ == self.screen@);
        }
        Table {
            save_position: self.save_position,
            show_cursor: self.show_cursor,
            mouse_handle: self.mouse_handle,
            ss_mod: self.ss_mod,
            newline: copy_flags(&self.newline),
            region: self.region,
            collection: self.collection,
            oob: self.oob,
            line_wrap: self.line_wrap,
            size: self.size,
            screen,
            pos: self.pos,
            bell: self.bell,
        }
    }
}

/// A copy of a vector of flags.
pub fn copy_flags(v: &Vec<bool>) -> (r: Vec<bool>)
    ensures
        r@ == v@,
{
    let mut r: Vec<bool> = Vec::new();
    let mut i: usize = 0;
    while i < v.len()
        invariant
            i <= v@.len(),
            r@ == v@.subrange(0, i as int),
        decreases v@.len() - i,
    {
        r.push(v[i]);
        proof {
            assert(v@.subrange(0, i + 1) == v@.subrange(0, i as int).push(v@[i as int]));
        }
        i = i + 1;
    }
    proof {
        assert(v@.subrange(0, v@.len() as int) == v@);
    }
    r
}

/// A vector of `n` set flags.
pub fn new_wraps(n: usize) -> (r: Vec<bool>)
    ensures
        r@ == all_wraps(n as int),
{
    let mut r: Vec<bool> = Vec::new();
    let mut i: usize = 0;
    while i < n
        invariant
            i <= n,
            r@ == all_wraps(i as int),
        decreases n - i,
    {
        r.push(true);
        proof {
            assert(all_wraps(i + 1) == all_wraps(i as int).push(true));
        }
        i = i + 1;
    }
    r
}

/// A cursor inside an active grid addresses one of its cells.
pub proof fn lemma_cursor_inside(t: Table)
    requires
        t.wf(),
        t.size.active(),
    ensures
        t.pos < t.screen@.len(),
{
    let x = t.oob.0 as int;
    let y = t.oob.1 as int;
    let c = t.cols();
    let r = t.rows();
    assert(x + y * c < r * c) by (nonlinear_arith)
        requires
            0 <= x < c,
            0 <= y < r,
    ;
}

/// Every well-formed screen with cells keeps its cursor on the grid, with
/// the flat offset agreeing with the (column, row) pair; every operation of
/// the library keeps the screen well formed, so this holds after any
/// sequence of them.
pub proof fn lemma_cursor_bounds(d: Display)
    requires
        d.wf(),
        d.table.size.active(),
    ensures
        d.table.oob.0 < d.table.cols(),
        d.table.oob.1 < d.table.rows(),
        d.table.pos == d.table.oob.0 + d.table.oob.1 * d.table.cols(),
        d.table.pos < d.table.screen@.len(),
{
    lemma_cursor_inside(d.table);
}

/// The flat offset of an in-grid pair fits in the grid.
pub proof fn lemma_offset_inside(x: int, y: int, c: int, r: int)
    requires
        0 <= x < c,
        0 <= y < r,
    ensures
        0 <= x + y * c < r * c,
        y * c <= x + y * c,
{
    assert(0 <= x + y * c < r * c) by (nonlinear_arith)
        requires
            0 <= x < c,
            0 <= y < r,
    ;
    assert(0 <= y * c) by (nonlinear_arith)
        requires
            0 <= c,
            0 <= y,
    ;
}

/// A terminal screen, with the snapshot that the alternate screen keeps.
pub struct Display {
    pub save_terminal: Option<Table>,
    pub table: Table,
}

impl Display {
    pub open spec fn wf(&self) -> bool {
        &&& self.table.wf()
        &&& self.save_terminal matches Some(t) ==> t.wf() && t.size.active()
    }

    /// `self` is `o` with the cursor moved to the given pair, after the
    /// cursor's marking was taken off its old cell.
    pub open spec fn moved_from(&self, o: &Display, x: int, y: int) -> bool {
        &&& self.table.oob == (x as usize, y as usize)
        &&& self.table.pos == x + y * o.table.cols()
        &&& self.table.screen@ == o.table.uncursored()
        &&& self.table.newline@ == o.table.newline@
        &&& self.table.same_settings(&o.table)
        &&& self.save_terminal == o.save_terminal
    }

    /// The screen of a new session: blank cells, a boundary at the end of
    /// every row, the whole screen as scroll region, the cursor at home.
    pub fn from_winszed(size: Winszed) -> (r: Display)
        ensures
            r.wf(),
            r.save_terminal is None,
            r.table.size == size,
            r.table.screen@ == copies(Character::spec_default(), size.area()),
            r.table.newline@ == all_wraps(size.rows()),
            r.table.region == (0usize, size.ws_row as usize),
            r.table.oob == (0usize, 0usize),
            r.table.pos == 0,
            r.table.save_position == (0usize, 0usize),
            r.table.show_cursor,
            r.table.mouse_handle == (false, false, false, false),
            !r.table.ss_mod,
            r.table.line_wrap,
            r.table.collection == Character::spec_default(),
            r.table.bell == 0,
    {
        let area = size.row_by_col();
        let rows = size.get_row();
        Display {
            save_terminal: None,
            table: Table {
                save_position: (0, 0),
                show_cursor: true,
                mouse_handle: (false, false, false, false),
                ss_mod: false,
                newline: new_wraps(rows),
                region: (0, rows),
                collection: Character::default(),
                oob: (0, 0),
                line_wrap: true,
                size,
                screen: new_copies(Character::default(), area),
                pos: 0,
                bell: 0,
            },
        }
    }

    /// The soft-shift mode flag.
    pub fn get_ss(&self) -> (r: bool)
        ensures
            r == self.table.ss_mod,
    {
        self.table.ss_mod
    }

    /// The four mouse-report flags: press, press and release, motion, extended.
    pub fn get_mouse(&self) -> (r: (bool, bool, bool, bool))
        ensures
            r == self.table.mouse_handle,
    {
        self.table.mouse_handle
    }

    pub fn get_window_size(&self) -> (r: &Winszed)
        ensures
            *r == self.table.size,
    {
        &self.table.size
    }

    /// The cursor as (column, row).
    pub fn get_cursor_coords(&self) -> (r: (usize, usize))
        ensures
            r == self.table.oob,
    {
        self.table.oob
    }

    /// The number of bells rung.
    pub fn get_bell(&self) -> (r: usize)
        ensures
            r == self.table.bell,
    {
        self.table.bell
    }

    /// The scroll region: first row, and the row past the last.
    pub fn get_region(&self) -> (r: (usize, usize))
        ensures
            r == self.table.region,
    {
        self.table.region
    }

    pub fn get_show_cursor(&self) -> (r: bool)
        ensures
            r == self.table.show_cursor,
    {
        self.table.show_cursor
    }

    pub fn get_line_wrap(&self) -> (r: bool)
        ensures
            r == self.table.line_wrap,
    {
        self.table.line_wrap
    }

    /// The style that new cells are drawn with.
    pub fn get_collection(&self) -> (r: Character)
        ensures
            r == self.table.collection,
    {
        self.table.collection
    }

    /// Whether an alternate-screen snapshot is held.
    pub fn has_saved_terminal(&self) -> (r: bool)
        ensures
            r == self.save_terminal is Some,
    {
        self.save_terminal.is_some()
    }

    /// The cell at a flat offset.
    pub fn get_cell(&self, index: usize) -> (r: Option<Character>)
        ensures
            index < self.table.screen@.len() ==> r == Some(self.table.screen@[index as int]),
            index >= self.table.screen@.len() ==> r is None,
    {
        if index < self.table.screen.len() {
            Some(self.table.screen[index])
        } else {
            None
        }
    }

    /// The boundary entries `(column, row)`, one for each row that ends in a
    /// line boundary, in row order.
    pub fn get_newline(&self) -> (r: Vec<(usize, usize)>)
        requires
            self.wf(),
        ensures
            self.table.size.ws_col > 0 ==> r@ == newline_pairs(self.table.newline@, self.table.cols()),
            self.table.size.ws_col == 0 ==> r@.len() == 0,
    {
        let mut r: Vec<(usize, usize)> = Vec::new();
        let cols = self.table.size.get_col();
        if cols == 0 {
            return r;
        }
        let mut i: usize = 0;
        while i < self.table.newline.len()
            invariant
                cols == self.table.cols(),
                cols > 0,
                i <= self.table.newline@.len(),
                r@ == newline_pairs(self.table.newline@.subrange(0, i as int), cols as int),
            decreases self.table.newline@.len() - i,
        {
            proof {
                let w = self.table.newline@.subrange(0, i + 1);
                assert(w.drop_last() == self.table.newline@.subrange(0, i as int));
            }
            if self.table.newline[i] {
                r.push((cols - 1, i));
            }
            i = i + 1;
        }
        proof {
            assert(self.table.newline@.subrange(0, self.table.newline@.len() as int) == self.table.newline@);
        }
        r
    }

    /// Takes the cursor's marking off its cell.
    pub(crate) fn clear_cursor(&mut self)
        requires
            old(self).wf(),
        ensures
            final(self).wf(),
            final(self).table.screen@ == restyle(old(self).table.screen@, old(self).table.pos as int, old(self).table.collection.operate),
            final(self).table.newline@ == old(self).table.newline@,
            final(self).table.same_settings(&old(self).table),
            final(self).table.oob == old(self).table.oob,
            final(self).table.pos == old(self).table.pos,
            final(self).save_terminal == old(self).save_terminal,
    {
        let pos = self.table.pos;
        if pos < self.table.screen.len() {
            let glyph = self.table.screen[pos].glyph;
            let op = self.table.collection.operate;
            self.table.screen.set(pos, Character { glyph, operate: op });
        }
    }

    /// Marks the cursor's cell.
    pub(crate) fn color_cursor(&mut self)
        requires
            old(self).wf(),
        ensures
            final(self).wf(),
            final(self).table.screen@ == restyle(old(self).table.screen@, old(self).table.pos as int, cursor_operate()),
            final(self).table.newline@ == old(self).table.newline@,
            final(self).table.same_settings(&old(self).table),
            final(self).table.oob == old(self).table.oob,
            final(self).table.pos == old(self).table.pos,
            final(self).save_terminal == old(self).save_terminal,
    {
        let pos = self.table.pos;
        if pos < self.table.screen.len() {
            let mut cell = self.table.screen[pos];
            cell.set_attribute(Attribute::Dim);
            cell.set_foreground(Color::Red);
            cell.set_background(Color::Cyan);
            self.table.screen.set(pos, cell);
        }
    }

    /// Moves the cursor to a pair already on the grid.
    pub(crate) fn place(&mut self, x: usize, y: usize)
        requires
            old(self).wf(),
            old(self).table.size.active(),
            x < old(self).table.cols(),
            y < old(self).table.rows(),
        ensures
            final(self).wf(),
            final(self).moved_from(old(self), x as int, y as int),
    {
        if self.table.show_cursor {
            self.clear_cursor();
        }
        let cols = self.table.size.get_col();
        proof {
            lemma_offset_inside(x as int, y as int, cols as int, self.table.rows());
            lemma_area_fits(self.table.size.ws_row, self.table.size.ws_col);
        }
        self.table.oob = (x, y);
        self.table.pos = x + y * cols;
    }

    /// Moves the cursor to (column, row), each clamped to the last one on the
    /// grid.
    pub fn goto_coord(&mut self, x: usize, y: usize)
        requires
            old(self).wf(),
        ensures
            final(self).wf(),
            old(self).table.size.active() ==> final(self).moved_from(
                old(self),
                if x < old(self).table.cols() { x as int } else { old(self).table.cols() - 1 },
                if y < old(self).table.rows() { y as int } else { old(self).table.rows() - 1 },
            ),
            !old(self).table.size.active() ==> *final(self) == *old(self),
    {
        if !(self.table.size.ws_row > 0 && self.table.size.ws_col > 0) {
            return;
        }
        let cols = self.table.size.get_col();
        let rows = self.table.size.get_row();
        let c = if x < cols { x } else { cols - 1 };
        let r = if y < rows { y } else { rows - 1 };
        self.place(c, r);
    }

    /// Moves the cursor to a flat offset, clamped to the grid.
    pub fn goto(&mut self, index: usize)
        requires
            old(self).wf(),
        ensures
            final(self).wf(),
            old(self).table.size.active() ==> final(self).moved_from(
                old(self),
                index as int % old(self).table.cols(),
                if index as int / old(self).table.cols() < old(self).table.rows() {
                    index as int / old(self).table.cols()
                } else {
                    old(self).table.rows() - 1
                },
            ),
            !old(self).table.size.active() ==> *final(self) == *old(self),
    {
        if !(self.table.size.ws_row > 0 && self.table.size.ws_col > 0) {
            return;
        }
        let cols = self.table.size.get_col();
        self.goto_coord(index % cols, index / cols);
    }

    /// Moves the cursor to the top left cell.
    pub fn goto_home(&mut self)
        requires
            old(self).wf(),
        ensures
            final(self).wf(),
            old(self).table.size.active() ==> final(self).moved_from(old(self), 0, 0),
            !old(self).table.size.active() ==> *final(self) == *old(self),
    {
        self.goto_coord(0, 0);
    }

    /// Moves the cursor up `mv` rows, stopping at the top row.
    pub fn goto_up(&mut self, mv: usize)
        requires
            old(self).wf(),
        ensures
            final(self).wf(),
            old(self).table.size.active() ==> final(self).moved_from(
                old(self),
                old(self).table.oob.0 as int,
                if old(self).table.oob.1 >= mv { old(self).table.oob.1 - mv } else { 0 },
            ),
            !old(self).table.size.active() ==> *final(self) == *old(self),
    {
        let x = self.table.oob.0;
        let y = if self.table.oob.1 >= mv { self.table.oob.1 - mv } else { 0 };
        self.goto_coord(x, y);
    }

    /// Moves the cursor down `mv` rows, stopping at the bottom row.
    pub fn goto_down(&mut self, mv: usize)
        requires
            old(self).wf(),
        ensures
            final(self).wf(),
            old(self).table.size.active() ==> final(self).moved_from(
                old(self),
                old(self).table.oob.0 as int,
                if old(self).table.oob.1 + mv < old(self).table.rows() {
                    old(self).table.oob.1 + mv
                } else {
                    old(self).table.rows() - 1
                },
            ),
            !old(self).table.size.active() ==> *final(self) == *old(self),
    {
        let x = self.table.oob.0;
        let y = self.table.oob.1.saturating_add(mv);
        self.goto_coord(x, y);
    }

    /// Moves the cursor right `mv` columns, stopping at the last column.
    pub fn goto_right(&mut self, mv: usize)
        requires
            old(self).wf(),
        ensures
            final(self).wf(),
            old(self).table.size.active() ==> final(self).moved_from(
                old(self),
                if old(self).table.oob.0 + mv < old(self).table.cols() {
                    old(self).table.oob.0 + mv
                } else {
                    old(self).table.cols() - 1
                },
                old(self).table.oob.1 as int,
            ),
            !old(self).table.size.active() ==> *final(self) == *old(self),
    {
        let x = self.table.oob.0.saturating_add(mv);
        let y = self.table.oob.1;
        self.goto_coord(x, y);
    }

    /// Moves the cursor left `mv` columns, stopping at the first column.
    pub fn goto_left(&mut self, mv: usize)
        requires
            old(self).wf(),
        ensures
            final(self).wf(),
            old(self).table.size.active() ==> final(self).moved_from(
                old(self),
                if old(self).table.oob.0 >= mv { old(self).table.oob.0 - mv } else { 0 },
                old(self).table.oob.1 as int,
            ),
            !old(self).table.size.active() ==> *final(self) == *old(self),
    {
        let x = if self.table.oob.0 >= mv { self.table.oob.0 - mv } else { 0 };
        let y = self.table.oob.1;
        self.goto_coord(x, y);
    }

    /// Moves the cursor to the first column of its row.
    pub fn goto_begin_row(&mut self)
        requires
            old(self).wf(),
        ensures
            final(self).wf(),
            old(self).table.size.active() ==> final(self).moved_from(old(self), 0, old(self).table.oob.1 as int),
            !old(self).table.size.active() ==> *final(self) == *old(self),
    {
        let y = self.table.oob.1;
        self.goto_coord(0, y);
    }

    /// Moves the cursor to the last column of its row.
    pub fn goto_end_row(&mut self)
        requires
            old(self).wf(),
        ensures
            final(self).wf(),
            old(self).table.size.active() ==> final(self).moved_from(
                old(self),
                old(self).table.cols() - 1,
                old(self).table.oob.1 as int,
            ),
            !old(self).table.size.active() ==> *final(self) == *old(self),
    {
        let y = self.table.oob.1;
        self.goto_coord(usize::MAX, y);
    }

    /// Remembers the cursor's pair; the newest one is kept.
    pub fn save_position(&mut self)
        requires
            old(self).wf(),
        ensures
            final(self).wf(),
            final(self).table.save_position == old(self).table.oob,
            final(self).table.equiv(&Table { save_position: old(self).table.oob, ..old(self).table }),
            final(self).save_terminal == old(self).save_terminal,
    {
        self.table.save_position = self.table.oob;
    }

    /// Moves the cursor to the remembered pair (home if none was saved).
    pub fn restore_position(&mut self)
        requires
            old(self).wf(),
        ensures
            final(self).wf(),
            old(self).table.size.active() ==> final(self).moved_from(
                old(self),
                if old(self).table.save_position.0 < old(self).table.cols() {
                    old(self).table.save_position.0 as int
                } else {
                    old(self).table.cols() - 1
                },
                if old(self).table.save_position.1 < old(self).table.rows() {
                    old(self).table.save_position.1 as int
                } else {
                    old(self).table.rows() - 1
                },
            ),
            !old(self).table.size.active() ==> *final(self) == *old(self),
    {
        let (x, y) = self.table.save_position;
        self.goto_coord(x, y);
    }

    /// Resets every cell to the blank cell and puts a boundary at the end of
    /// every row.
    pub fn clear(&mut self)
        requires
            old(self).wf(),
        ensures
            final(self).wf(),
            final(self).table.screen@ == copies(Character::spec_default(), old(self).table.size.area()),
            final(self).table.newline@ == all_wraps(old(self).table.rows()),
            final(self).table.same_settings(&old(self).table),
            final(self).table.oob == old(self).table.oob,
            final(self).table.pos == old(self).table.pos,
            final(self).save_terminal == old(self).save_terminal,
    {
        let area = self.table.size.row_by_col();
        let rows = self.table.size.get_row();
        self.table.screen = new_copies(Character::default(), area);
        self.table.newline = new_wraps(rows);
    }

    /// Enters the alternate screen: keeps a copy of the whole state,
    /// replacing any copy kept before. A screen without cells keeps none.
    pub fn save_terminal(&mut self)
        requires
            old(self).wf(),
        ensures
            final(self).wf(),
            old(self).table.size.active() ==> final(self).table == old(self).table,
            old(self).table.size.active() ==> (final(self).save_terminal matches Some(t) && t.equiv(
                &old(self).table,
            )),
            !old(self).table.size.active() ==> *final(self) == *old(self),
    {
        if !(self.table.size.ws_row > 0 && self.table.size.ws_col > 0) {
            return;
        }
        let copy = self.table.duplicate();
        self.save_terminal = Some(copy);
    }

    /// Leaves the alternate screen: brings back the copy kept on entering
    /// (if any) and drops it; then the cursor's cell is unmarked.
    pub fn restore_terminal(&mut self)
        requires
            old(self).wf(),
        ensures
            final(self).wf(),
            final(self).save_terminal is None,
            old(self).save_terminal matches Some(t) ==> {
                &&& final(self).table.screen@ == t.uncursored()
                &&& final(self).table.equiv(&Table { screen: final(self).table.screen, ..t })
            },
            old(self).save_terminal is None ==> {
                &&& final(self).table.screen@ == old(self).table.uncursored()
                &&& final(self).table.equiv(&Table { screen: final(self).table.screen, ..old(self).table })
            },
    {
        let saved = self.save_terminal.take();
        match saved {
            Some(t) => {
                self.table = t;
            },
            None => {},
        }
        let (x, y) = self.table.oob;
        let ghost before = self.table;
        self.goto_coord(x, y);
        proof {
            if !before.size.active() {
                lemma_inactive_area(before.size);
                assert(before.uncursored() =~= before.screen@);
            }
        }
    }
}

impl Default for Display {
    /// A screen without cells.
    fn default() -> (r: Display)
        ensures
            r.wf(),
            r.save_terminal is None,
            r.table.size == (Winszed { ws_row: 0, ws_col: 0 }),
            r.table.screen@.len() == 0,
    {
        Display::from_winszed(Winszed::new(0, 0))
    }
}

} // verus!
