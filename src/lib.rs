//! The screen model of a terminal emulator: a grid of styled cells, a cursor,
//! scrolling regions, and the interpreter of the control sequences that a
//! program running on a pseudo-terminal writes.

pub mod character;
pub mod winsz;
pub mod cells;
pub mod display;
pub mod scroll;
pub mod erase;
pub mod resize;
pub mod numbers;
pub mod glyph;
pub mod print;
pub mod interp;
pub mod render;
pub mod feed;
