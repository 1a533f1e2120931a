use vstd::prelude::*;
use crate::character::{Attribute, Character, Operate};
use crate::display::Display;

verus! {

/// Relies on `String::push`: appends the character at the end.
#[verifier::external_body]
fn push_char(s: &mut String, c: char)
    ensures
        final(s)@ == old(s)@.push(c),
{
    s.push(c);
}

/// The decimal digit `d` as a character.
pub open spec fn digit(d: int) -> char {
    if d == 0 {
        '0'
    } else if d == 1 {
        '1'
    } else if d == 2 {
        '2'
    } else if d == 3 {
        '3'
    } else if d == 4 {
        '4'
    } else if d == 5 {
        '5'
    } else if d == 6 {
        '6'
    } else if d == 7 {
        '7'
    } else if d == 8 {
        '8'
    } else {
        '9'
    }
}

fn digit_char(d: u8) -> (c: char)
    ensures
        c == digit(d as int),
{
    if d == 0 {
        '0'
    } else if d == 1 {
        '1'
    } else if d == 2 {
        '2'
    } else if d == 3 {
        '3'
    } else if d == 4 {
        '4'
    } else if d == 5 {
        '5'
    } else if d == 6 {
        '6'
    } else if d == 7 {
        '7'
    } else if d == 8 {
        '8'
    } else {
        '9'
    }
}

/// `;` and the rendition code of an attribute, where the mask holds it.
pub open spec fn attr_code(mask: u8, a: Attribute, code: int) -> Seq<char> {
    if mask & a.spec_bit() != 0 {
        seq![';', digit(code)]
    } else {
        Seq::empty()
    }
}

/// The rendition sequence that selects a style: a reset, each attribute of
/// the mask, the foreground, the background.
pub open spec fn style_prefix(op: Operate) -> Seq<char> {
    seq!['\x1B', '[', '0'] + attr_codes(op.attribute) + color_codes(op)
}

/// A cell as text: its style's rendition sequence, then its glyph.
pub open spec fn cell_text(c: Character) -> Seq<char> {
    style_prefix(c.operate).push(c.glyph)
}

/// The text of the cells `[0, n)` of a grid `cols` wide: each row's cells,
/// and a line break before every row but the first.
pub open spec fn grid_text(s: Seq<Character>, cols: int, n: int) -> Seq<char>
    decreases n,
{
    if n <= 0 {
        Seq::empty()
    } else {
        let before = grid_text(s, cols, n - 1);
        let sep = if n - 1 > 0 && (n - 1) % cols == 0 { seq!['\n'] } else { Seq::empty() };
        before + sep + cell_text(s[n - 1])
    }
}

fn push_attr(out: &mut String, mask: u8, a: Attribute, code: u8)
    requires
        code <= 9,
    ensures
        final(out)@ == old(out)@ + attr_code(mask, a, code as int),
{
    if mask & a.bit() != 0 {
        push_char(out, ';');
        push_char(out, digit_char(code));
        proof {
            assert(old(out)@.push(';').push(digit(code as int)) =~= old(out)@ + seq![';', digit(code as int)]);
        }
    } else {
        proof {
            assert(old(out)@ + Seq::<char>::empty() =~= old(out)@);
        }
    }
}

/// The attribute part of a style's rendition sequence.
pub open spec fn attr_codes(m: u8) -> Seq<char> {
    attr_code(m, Attribute::Bold, 1) + attr_code(m, Attribute::Dim, 2) + attr_code(m, Attribute::Italic, 3)
        + attr_code(m, Attribute::Underline, 4) + attr_code(m, Attribute::Blink, 5) + attr_code(
        m,
        Attribute::Reverse,
        7,
    ) + attr_code(m, Attribute::Hidden, 8)
}

/// The colour part of a style's rendition sequence.
pub open spec fn color_codes(op: Operate) -> Seq<char> {
    seq![';', '3', digit(op.foreground.spec_index() as int), ';', '4', digit(op.background.spec_index() as int), 'm']
}

fn push_attrs(out: &mut String, m: u8)
    ensures
        final(out)@ == old(out)@ + attr_codes(m),
{
    push_attr(out, m, Attribute::Bold, 1);
    push_attr(out, m, Attribute::Dim, 2);
    push_attr(out, m, Attribute::Italic, 3);
    push_attr(out, m, Attribute::Underline, 4);
    push_attr(out, m, Attribute::Blink, 5);
    push_attr(out, m, Attribute::Reverse, 7);
    push_attr(out, m, Attribute::Hidden, 8);
    proof {
        assert(out@ =~= old(out)@ + attr_codes(m));
    }
}

fn push_colors(out: &mut String, op: Operate)
    ensures
        final(out)@ == old(out)@ + color_codes(op),
{
    push_char(out, ';');
    push_char(out, '3');
    push_char(out, digit_char(op.foreground.index()));
    push_char(out, ';');
    push_char(out, '4');
    push_char(out, digit_char(op.background.index()));
    push_char(out, 'm');
    proof {
        assert(out@ =~= old(out)@ + color_codes(op));
    }
}

/// Appends the text of one cell.
fn push_cell(out: &mut String, c: Character)
    ensures
        final(out)@ == old(out)@ + cell_text(c),
{
    push_char(out, '\x1B');
    push_char(out, '[');
    push_char(out, '0');
    push_attrs(out, c.operate.attribute);
    push_colors(out, c.operate);
    push_char(out, c.glyph);
    proof {
        assert(out@ =~= old(out)@ + cell_text(c));
    }
}

impl Character {
    /// The cell as text: its style's rendition sequence, then its glyph.
    pub fn to_text(&self) -> (r: String)
        ensures
            r@ == cell_text(*self),
    {
        let mut out = String::new();
        push_cell(&mut out, *self);
        proof {
            assert(Seq::<char>::empty() + cell_text(*self) =~= cell_text(*self));
        }
        out
    }
}

/// The first byte of the UTF-8 encoding of the code point `v`: the value
/// itself below 0x80; else the length marker (`0xC0`, `0xE0` or `0xF0`) and
/// the top bits of the value, for two, three or four bytes.
pub open spec fn utf8_lead(v: u32) -> u8 {
    if v < 0x80 {
        v as u8
    } else if v < 0x800 {
        (0xC0 + v / 0x40) as u8
    } else if v < 0x10000 {
        (0xE0 + v / 0x1000) as u8
    } else {
        (0xF0 + v / 0x40000) as u8
    }
}

fn lead_byte(v: u32) -> (r: u8)
    ensures
        r == utf8_lead(v),
{
    if v < 0x80 {
        v as u8
    } else if v < 0x800 {
        (0xC0 + v / 0x40) as u8
    } else if v < 0x10000 {
        (0xE0 + v / 0x1000) as u8
    } else {
        (0xF0 + v / 0x40000) as u8
    }
}

impl Display {
    /// Every cell's glyph as one byte: the first byte of its UTF-8 encoding.
    pub fn into_bytes(&self) -> (r: Vec<u8>)
        ensures
            r@.len() == self.table.screen@.len(),
            forall|i: int| 0 <= i < r@.len() ==> r@[i] == utf8_lead(self.table.screen@[i].glyph as u32),
    {
        let mut out: Vec<u8> = Vec::new();
        let mut i: usize = 0;
        while i < self.table.screen.len()
            invariant
                i <= self.table.screen@.len(),
                out@.len() == i,
                forall|k: int| 0 <= k < i ==> out@[k] == utf8_lead(self.table.screen@[k].glyph as u32),
            decreases self.table.screen@.len() - i,
        {
            out.push(lead_byte(self.table.screen[i].glyph as u32));
            i = i + 1;
        }
        out
    }

    /// The screen as text: the rows in order, each cell written with its
    /// style, rows separated by a line break.
    pub fn to_text(&self) -> (r: String)
        requires
            self.wf(),
        ensures
            r@ == grid_text(self.table.screen@, self.table.cols(), self.table.screen@.len() as int),
    {
        let mut out = String::new();
        let cols = self.table.size.get_col();
        let mut i: usize = 0;
        while i < self.table.screen.len()
            invariant
                i <= self.table.screen@.len(),
                self.table.screen@.len() == self.table.size.area(),
                cols == self.table.cols(),
                out@ == grid_text(self.table.screen@, cols as int, i as int),
            decreases self.table.screen@.len() - i,
        {
            if i > 0 && cols > 0 && i % cols == 0 {
                push_char(&mut out, '\n');
            }
            let ghost mid = out@;
            push_cell(&mut out, self.table.screen[i]);
            proof {
                let sep = if i > 0 && (i as int) % (cols as int) == 0 { seq!['\n'] } else { Seq::<char>::empty() };
                if cols == 0 {
                    assert(false) by (nonlinear_arith)
                        requires
                            i < self.table.screen@.len(),
                            self.table.screen@.len() == self.table.rows() * (cols as int),
                            cols == 0,
                    ;
                }
                assert(mid == grid_text(self.table.screen@, cols as int, i as int) + sep);
            }
            i = i + 1;
        }
        out
    }
}

} // verus!
