use vstd::prelude::*;
use crate::cells::{rotate_in, rotate_in_vec, rotate_out};
use crate::character::{Attribute, Character, Color, Operate};
use crate::display::{lemma_cursor_inside, lemma_offset_inside, restyle, Display, Table};
use crate::scroll::{lemma_row_offsets, wraps_scrolled_up};
use crate::winsz::lemma_area_fits;

verus! {

/// The colour of index `k` in the standard table.
pub open spec fn color_of(k: int) -> Color {
    if k == 0 {
        Color::Black
    } else if k == 1 {
        Color::Red
    } else if k == 2 {
        Color::Green
    } else if k == 3 {
        Color::Yellow
    } else if k == 4 {
        Color::Blue
    } else if k == 5 {
        Color::Magenta
    } else if k == 6 {
        Color::Cyan
    } else {
        Color::White
    }
}

pub open spec fn with_attribute(ch: Character, mask: u8) -> Character {
    Character { operate: Operate { attribute: mask, ..ch.operate }, ..ch }
}

pub open spec fn with_foreground(ch: Character, color: Color) -> Character {
    Character { operate: Operate { foreground: color, ..ch.operate }, ..ch }
}

pub open spec fn with_background(ch: Character, color: Color) -> Character {
    Character { operate: Operate { background: color, ..ch.operate }, ..ch }
}

/// The drawing style after one rendition code: 0 resets; 1-5, 7, 8 set an
/// attribute; 22-25, 27, 28 clear one (22 clears bold and dim); 30-37 and
/// 40-47 pick the foreground and background; 39 picks a black foreground and
/// 49 a white background; any other code changes nothing.
pub open spec fn sgr(ch: Character, code: usize) -> Character {
    let a = ch.operate.attribute;
    if code == 0 {
        Character::spec_default()
    } else if code == 1 {
        with_attribute(ch, a | Attribute::Bold.spec_bit())
    } else if code == 2 {
        with_attribute(ch, a | Attribute::Dim.spec_bit())
    } else if code == 3 {
        with_attribute(ch, a | Attribute::Italic.spec_bit())
    } else if code == 4 {
        with_attribute(ch, a | Attribute::Underline.spec_bit())
    } else if code == 5 {
        with_attribute(ch, a | Attribute::Blink.spec_bit())
    } else if code == 7 {
        with_attribute(ch, a | Attribute::Reverse.spec_bit())
    } else if code == 8 {
        with_attribute(ch, a | Attribute::Hidden.spec_bit())
    } else if code == 22 {
        with_attribute(ch, a & !Attribute::Bold.spec_bit() & !Attribute::Dim.spec_bit())
    } else if code == 23 {
        with_attribute(ch, a & !Attribute::Italic.spec_bit())
    } else if code == 24 {
        with_attribute(ch, a & !Attribute::Underline.spec_bit())
    } else if code == 25 {
        with_attribute(ch, a & !Attribute::Blink.spec_bit())
    } else if code == 27 {
        with_attribute(ch, a & !Attribute::Reverse.spec_bit())
    } else if code == 28 {
        with_attribute(ch, a & !Attribute::Hidden.spec_bit())
    } else if 30 <= code <= 37 {
        with_foreground(ch, color_of(code - 30))
    } else if code == 39 {
        with_foreground(ch, Color::Black)
    } else if 40 <= code <= 47 {
        with_background(ch, color_of(code - 40))
    } else if code == 49 {
        with_background(ch, Color::White)
    } else {
        ch
    }
}

/// The drawing style after a list of rendition codes, taken in order.
pub open spec fn sgr_all(ch: Character, codes: Seq<usize>) -> Character
    decreases codes.len(),
{
    if codes.len() == 0 {
        ch
    } else {
        sgr(sgr_all(ch, codes.drop_last()), codes.last())
    }
}

/// The colour of index `k` in the standard table.
pub fn color_index(k: usize) -> (r: Color)
    ensures
        r == color_of(k as int),
{
    if k == 0 {
        Color::Black
    } else if k == 1 {
        Color::Red
    } else if k == 2 {
        Color::Green
    } else if k == 3 {
        Color::Yellow
    } else if k == 4 {
        Color::Blue
    } else if k == 5 {
        Color::Magenta
    } else if k == 6 {
        Color::Cyan
    } else {
        Color::White
    }
}

/// Applies one rendition code to a drawing style.
pub fn apply_sgr(ch: &mut Character, code: usize)
    ensures
        *final(ch) == sgr(*old(ch), code),
{
    if code == 0 {
        ch.clear();
    } else if code == 1 {
        ch.add_attribute(Attribute::Bold);
    } else if code == 2 {
        ch.add_attribute(Attribute::Dim);
    } else if code == 3 {
        ch.add_attribute(Attribute::Italic);
    } else if code == 4 {
        ch.add_attribute(Attribute::Underline);
    } else if code == 5 {
        ch.add_attribute(Attribute::Blink);
    } else if code == 7 {
        ch.add_attribute(Attribute::Reverse);
    } else if code == 8 {
        ch.add_attribute(Attribute::Hidden);
    } else if code == 22 {
        ch.sub_attribute(Attribute::Bold);
        ch.sub_attribute(Attribute::Dim);
    } else if code == 23 {
        ch.sub_attribute(Attribute::Italic);
    } else if code == 24 {
        ch.sub_attribute(Attribute::Underline);
    } else if code == 25 {
        ch.sub_attribute(Attribute::Blink);
    } else if code == 27 {
        ch.sub_attribute(Attribute::Reverse);
    } else if code == 28 {
        ch.sub_attribute(Attribute::Hidden);
    } else if 30 <= code && code <= 37 {
        ch.set_foreground(color_index(code - 30));
    } else if code == 39 {
        ch.set_foreground(Color::Black);
    } else if 40 <= code && code <= 47 {
        ch.set_background(color_index(code - 40));
    } else if code == 49 {
        ch.set_background(Color::White);
    }
}

/// The width of the tab stop after column `x`.
pub open spec fn tab_width(x: int) -> int {
    8 - x % 8
}

impl Display {
    /// `self` is `o` after a tab (see `print_tab`).
    pub open spec fn tabbed_from(&self, o: &Display) -> bool {
        let t = o.table;
        let w = tab_width(t.oob.0 as int);
        let room = t.cols() - t.oob.0;
        let s1 = rotate_in(
            t.screen@,
            t.pos as int,
            (t.oob.1 + 1) * t.cols(),
            Character::spec_default(),
            if w < room { w } else { room },
        );
        if t.oob.0 + w < t.cols() {
            let nx = t.oob.0 + w;
            &&& self.table.oob == (nx as usize, t.oob.1)
            &&& self.table.pos == nx + t.oob.1 * t.cols()
            &&& self.table.newline@ == t.newline@
            &&& self.table.same_settings(&t)
            &&& self.save_terminal == o.save_terminal
            &&& self.table.screen@ == (if t.show_cursor {
                restyle(s1, t.pos as int, t.collection.operate)
            } else {
                s1
            })
        } else {
            exists|mid: Display, fed: Display|
                #![trigger fed.entered_from(&mid)]
                {
                    &&& mid.table.screen@ == s1
                    &&& mid.table.equiv(&Table { screen: mid.table.screen, ..t })
                    &&& mid.save_terminal == o.save_terminal
                    &&& fed.entered_from(&mid)
                    &&& self.moved_from(&fed, 0, fed.table.oob.1 as int)
                }
        }
    }

    /// `self` is `o` after `glyph` was printed (see `print_char`).
    pub open spec fn printed_from(&self, o: &Display, glyph: char) -> bool {
        &&& self.save_terminal == o.save_terminal
        &&& self.table.same_settings(&o.table)
        &&& {
            let t = o.table;
            let c = t.cols();
            let x = t.oob.0 as int;
            let y = t.oob.1 as int;
            let top = t.region.0 as int;
            let end = t.region.1 as int;
            let cell = Character { glyph, operate: t.collection.operate };
            let u = t.uncursored();
            let f = self.table;
            if x + 1 < c {
                &&& f.screen@ == u.update(t.pos as int, cell)
                &&& f.oob == ((x + 1) as usize, y as usize)
                &&& f.newline@ == t.newline@
            } else if y + 1 < end {
                &&& f.screen@ == u.update(t.pos as int, cell)
                &&& f.oob == (0usize, (y + 1) as usize)
                &&& f.newline@ == (if t.ss_mod { t.newline@ } else { t.newline@.update(y, false) })
            } else if y + 1 == end {
                let scrolled = rotate_out(u, top * c, end * c, t.collection, c);
                &&& f.newline@ == wraps_scrolled_up(t.newline@, top, end)
                &&& (if y > 0 {
                    f.screen@ == scrolled.update(y * c - 1, cell) && f.oob == (0usize, y as usize)
                } else {
                    f.screen@ == scrolled && f.oob == (0usize, 0usize)
                })
            } else {
                &&& f.screen@ == u.update(t.pos - 1, cell)
                &&& f.oob == t.oob
                &&& f.newline@ == t.newline@
            }
        }
    }

    /// The drawing style after the rendition codes, in order.
    pub fn set_rendition(&mut self, codes: &Vec<usize>)
        requires
            old(self).wf(),
        ensures
            final(self).wf(),
            final(self).table.collection == sgr_all(old(self).table.collection, codes@),
            final(self).table.equiv(&Table { collection: final(self).table.collection, ..old(self).table }),
            final(self).save_terminal == old(self).save_terminal,
    {
        let mut i: usize = 0;
        while i < codes.len()
            invariant
                i <= codes@.len(),
                self.wf(),
                self.table.collection == sgr_all(old(self).table.collection, codes@.subrange(0, i as int)),
                self.table.equiv(&Table { collection: self.table.collection, ..old(self).table }),
                self.save_terminal == old(self).save_terminal,
            decreases codes@.len() - i,
        {
            proof {
                assert(codes@.subrange(0, i + 1).drop_last() =~= codes@.subrange(0, i as int));
            }
            apply_sgr(&mut self.table.collection, codes[i]);
            i = i + 1;
        }
        proof {
            assert(codes@.subrange(0, codes@.len() as int) =~= codes@);
        }
    }

    /// Redefines the scroll region from 1-based rows `begin` through `end`
    /// (the end clipped to the screen); nothing changes when `begin` is 0 or
    /// past `end`.
    pub fn tricky_resize(&mut self, begin: usize, end: usize)
        requires
            old(self).wf(),
        ensures
            final(self).wf(),
            ({
                let e = if end < old(self).table.rows() { end as int } else { old(self).table.rows() };
                if 0 < begin <= end && begin - 1 < e {
                    final(self).table.region == ((begin - 1) as usize, e as usize)
                } else {
                    final(self).table.region == old(self).table.region
                }
            }),
            final(self).table.equiv(&Table { region: final(self).table.region, ..old(self).table }),
            final(self).save_terminal == old(self).save_terminal,
    {
        let rows = self.table.size.get_row();
        let e = if end < rows { end } else { rows };
        if begin > 0 && begin <= end && begin - 1 < e {
            self.table.region = (begin - 1, e);
        }
    }

    /// The width of the tab stop at the cursor.
    pub fn next_tab(&self) -> (r: usize)
        ensures
            r == tab_width(self.table.oob.0 as int),
    {
        8 - (self.table.oob.0 % 8)
    }

    /// A tab: blank cells enter at the cursor up to the next tab stop, the
    /// rest of the row moves right (what passes the row's end is lost), and
    /// the cursor moves to the stop. A stop past the last column wraps: the
    /// cursor goes to the start of the next row, and on the last row of the
    /// scroll region the region scrolls up instead, as for a line feed.
    pub fn print_tab(&mut self)
        requires
            old(self).wf(),
        ensures
            final(self).wf(),
            old(self).table.size.active() ==> final(self).tabbed_from(old(self)),
            !old(self).table.size.active() ==> *final(self) == *old(self),
    {
        if !(self.table.size.ws_row > 0 && self.table.size.ws_col > 0) {
            return;
        }
        let cols = self.table.size.get_col();
        let x = self.table.oob.0;
        let y = self.table.oob.1;
        let pos = self.table.pos;
        let w = self.next_tab();
        let room = cols - x;
        let k = if w < room { w } else { room };
        proof {
            lemma_row_offsets(y as int, self.table.rows(), cols as int);
            lemma_area_fits(self.table.size.ws_row, self.table.size.ws_col);
        }
        rotate_in_vec(&mut self.table.screen, pos, (y + 1) * cols, Character::default(), k);
        let ghost mid = *self;
        if x + w < cols {
            self.goto_right(w);
            assert(self.moved_from(&mid, (x + w) as int, y as int));
        } else {
            self.print_enter();
            let ghost fed = *self;
            assert(fed.table.size == mid.table.size);
            self.goto_begin_row();
            assert(self.moved_from(&fed, 0, fed.table.oob.1 as int));
        }
    }

    /// Places a glyph at the cursor in the drawing style and advances.
    ///
    /// Before the last column the cursor moves one column right. At the last
    /// column it moves to the start of the next row (dropping that row's
    /// boundary unless soft-shift mode is on); on the last row of the scroll
    /// region, the region scrolls up first, the cursor returns to column 0
    /// and the glyph lands at the end of the row above the cursor; when that
    /// row lies above the screen (a one-row region at the top), the glyph
    /// scrolled out with it and is not kept. Below the region, the glyph
    /// replaces the one before the cursor.
    #[verifier::rlimit(30)]
    pub fn print_char(&mut self, glyph: char)
        requires
            old(self).wf(),
        ensures
            final(self).wf(),
            old(self).table.size.active() ==> final(self).printed_from(old(self), glyph),
            !old(self).table.size.active() ==> *final(self) == *old(self),
    {
        if !(self.table.size.ws_row > 0 && self.table.size.ws_col > 0) {
            return;
        }
        let cols = self.table.size.get_col();
        let x = self.table.oob.0;
        let y = self.table.oob.1;
        let top = self.table.region.0;
        let end = self.table.region.1;
        let pos = self.table.pos;
        let cell = Character { glyph, operate: self.table.collection.operate };
        proof {
            lemma_cursor_inside(self.table);
            lemma_area_fits(self.table.size.ws_row, self.table.size.ws_col);
        }
        let ghost u0 = self.table.uncursored();
        if self.table.show_cursor {
            self.clear_cursor();
        }
        assert(self.table.screen@ == u0);
        if x + 1 < cols {
            self.table.screen.set(pos, cell);
            self.table.oob = (x + 1, y);
            self.table.pos = pos + 1;
            assert(self.table.cursor_ok());
        } else if y + 1 < end {
            self.table.screen.set(pos, cell);
            if !self.table.ss_mod {
                self.table.newline.set(y, false);
            }
            proof {
                lemma_offset_inside(0, y + 1, cols as int, self.table.rows());
                assert((y + 1) * cols == y * cols + cols) by (nonlinear_arith);
            }
            self.table.oob = (0, y + 1);
            self.table.pos = pos + 1;
            assert(self.table.cursor_ok());
        } else if y + 1 == end {
            proof {
                assert(self.table.uncursored() =~= u0);
            }
            self.scroll_up(top);
            if y > 0 {
                proof {
                    lemma_row_offsets(y as int, self.table.rows(), cols as int);
                    assert(y * cols >= cols) by (nonlinear_arith)
                        requires
                            y >= 1,
                            cols >= 1,
                    ;
                }
                self.table.screen.set(y * cols - 1, cell);
                self.table.oob = (0, y);
                self.table.pos = y * cols;
                assert(self.table.cursor_ok());
            } else {
                self.table.oob = (0, 0);
                self.table.pos = 0;
                assert(self.table.cursor_ok());
            }
        } else {
            proof {
                assert(y * cols >= cols) by (nonlinear_arith)
                    requires
                        y >= 1,
                        cols >= 1,
                ;
            }
            self.table.screen.set(pos - 1, cell);
        }
    }
}

} // verus!
