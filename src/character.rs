use vstd::prelude::*;

verus! {

/// One of the eight colours that the rendition codes name.
#[derive(Clone, Copy, Debug, PartialEq, Eq, Structural)]
pub enum Color {
    Black,
    Red,
    Green,
    Yellow,
    Blue,
    Magenta,
    Cyan,
    White,
}

impl Color {
    /// The colour's index in the standard table (black 0 .. white 7).
    pub open spec fn spec_index(self) -> u8 {
        match self {
            Color::Black => 0,
            Color::Red => 1,
            Color::Green => 2,
            Color::Yellow => 3,
            Color::Blue => 4,
            Color::Magenta => 5,
            Color::Cyan => 6,
            Color::White => 7,
        }
    }

    pub fn index(self) -> (r: u8)
        ensures
            r == self.spec_index(),
    {
        match self {
            Color::Black => 0,
            Color::Red => 1,
            Color::Green => 2,
            Color::Yellow => 3,
            Color::Blue => 4,
            Color::Magenta => 5,
            Color::Cyan => 6,
            Color::White => 7,
        }
    }
}

/// A text attribute; each one owns one bit of the attribute mask.
#[derive(Clone, Copy, Debug, PartialEq, Eq, Structural)]
pub enum Attribute {
    Bold,
    Dim,
    Italic,
    Underline,
    Blink,
    Reverse,
    Hidden,
}

impl Attribute {
    pub open spec fn spec_bit(self) -> u8 {
        match self {
            Attribute::Bold => 1,
            Attribute::Dim => 2,
            Attribute::Italic => 4,
            Attribute::Underline => 8,
            Attribute::Blink => 16,
            Attribute::Reverse => 32,
            Attribute::Hidden => 64,
        }
    }

    /// The bit of the attribute mask that stands for this attribute.
    pub fn bit(self) -> (r: u8)
        ensures
            r == self.spec_bit(),
    {
        match self {
            Attribute::Bold => 1,
            Attribute::Dim => 2,
            Attribute::Italic => 4,
            Attribute::Underline => 8,
            Attribute::Blink => 16,
            Attribute::Reverse => 32,
            Attribute::Hidden => 64,
        }
    }
}

/// The rendering style of a cell: an attribute mask and two colours.
#[derive(Clone, Copy, Debug, PartialEq, Eq, Structural)]
pub struct Operate {
    pub attribute: u8,
    pub foreground: Color,
    pub background: Color,
}

impl Operate {
    /// No attribute, white on black.
    pub open spec fn spec_default() -> Operate {
        Operate { attribute: 0, foreground: Color::White, background: Color::Black }
    }

    pub fn new() -> (r: Operate)
        ensures
            r == Operate::spec_default(),
    {
        Operate { attribute: 0, foreground: Color::White, background: Color::Black }
    }
}

/// One cell of the grid: a glyph and its style.
#[derive(Clone, Copy, Debug, PartialEq, Eq, Structural)]
pub struct Character {
    pub glyph: char,
    pub operate: Operate,
}

impl Character {
    /// The blank cell: a space in the default style.
    pub open spec fn spec_default() -> Character {
        Character { glyph: ' ', operate: Operate::spec_default() }
    }

    pub fn new(glyph: char, operate: Operate) -> (r: Character)
        ensures
            r.glyph == glyph,
            r.operate == operate,
    {
        Character { glyph, operate }
    }

    pub fn get_attributes(&self) -> (r: &Operate)
        ensures
            *r == self.operate,
    {
        &self.operate
    }

    pub fn is_enter(&self) -> (r: bool)
        ensures
            r == (self.glyph == '\n'),
    {
        self.glyph == '\n'
    }

    pub fn is_space(&self) -> (r: bool)
        ensures
            r == (self.glyph == ' '),
    {
        self.glyph == ' '
    }

    pub fn get_glyph(&self) -> (r: char)
        ensures
            r == self.glyph,
    {
        self.glyph
    }

    /// Resets the cell to the blank cell.
    pub fn clear(&mut self)
        ensures
            *final(self) == Character::spec_default(),
    {
        *self = Character::default();
    }

    pub fn get_attribute(&self) -> (r: u8)
        ensures
            r == self.operate.attribute,
    {
        self.operate.attribute
    }

    pub fn get_foreground(&self) -> (r: Color)
        ensures
            r == self.operate.foreground,
    {
        self.operate.foreground
    }

    pub fn get_background(&self) -> (r: Color)
        ensures
            r == self.operate.background,
    {
        self.operate.background
    }

    /// Replaces the whole attribute mask.
    pub fn set_attribute_from_u8(&mut self, mask: u8)
        ensures
            *final(self) == (Character {
                operate: Operate { attribute: mask, ..old(self).operate },
                ..*old(self)
            }),
    {
        self.operate.attribute = mask;
    }

    /// Replaces the attribute mask by the one attribute given.
    pub fn set_attribute(&mut self, attr: Attribute)
        ensures
            *final(self) == (Character {
                operate: Operate { attribute: attr.spec_bit(), ..old(self).operate },
                ..*old(self)
            }),
    {
        self.operate.attribute = attr.bit();
    }

    /// Sets the attribute's bit, keeping the others.
    pub fn add_attribute(&mut self, attr: Attribute)
        ensures
            *final(self) == (Character {
                operate: Operate { attribute: old(self).operate.attribute | attr.spec_bit(), ..old(self).operate },
                ..*old(self)
            }),
    {
        self.operate.attribute = self.operate.attribute | attr.bit();
    }

    /// Clears the attribute's bit, keeping the others.
    pub fn sub_attribute(&mut self, attr: Attribute)
        ensures
            *final(self) == (Character {
                operate: Operate { attribute: old(self).operate.attribute & !attr.spec_bit(), ..old(self).operate },
                ..*old(self)
            }),
    {
        self.operate.attribute = self.operate.attribute & !attr.bit();
    }

    pub fn set_foreground(&mut self, color: Color)
        ensures
            *final(self) == (Character {
                operate: Operate { foreground: color, ..old(self).operate },
                ..*old(self)
            }),
    {
        self.operate.foreground = color;
    }

    pub fn set_background(&mut self, color: Color)
        ensures
            *final(self) == (Character {
                operate: Operate { background: color, ..old(self).operate },
                ..*old(self)
            }),
    {
        self.operate.background = color;
    }
}

impl Default for Character {
    fn default() -> (r: Character)
        ensures
            r == Character::spec_default(),
    {
        Character { glyph: ' ', operate: Operate::new() }
    }
}

impl From<char> for Character {
    fn from(glyph: char) -> (r: Character) {
        Character { glyph, operate: Operate::new() }
    }
}

impl vstd::std_specs::convert::FromSpecImpl<char> for Character {
    open spec fn obeys_from_spec() -> bool {
        true
    }

    open spec fn from_spec(glyph: char) -> Character {
        Character { glyph, operate: Operate::spec_default() }
    }
}

} // verus!
