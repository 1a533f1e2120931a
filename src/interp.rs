use vstd::prelude::*;
use crate::cells::{copies, fill, rotate_in, rotate_out};
use crate::character::Character;
use crate::display::{all_wraps, cursor_operate, lemma_cursor_inside, restyle, Display, Table};
use crate::erase::{erased_left, erased_lines, erased_right, line_border};
use crate::print::sgr_all;
use crate::scroll::lemma_row_offsets;
use crate::glyph::{continued, decode_glyph, decoded, lead_len, printed};
use crate::numbers::{numbers_at, parse_numbers};

verus! {

const ESC: u8 = 0x1B;

/// One operation that a control sequence, or a glyph, stands for.
pub enum Op {
    /// Nothing to do (a sequence that is only consumed).
    Nop,
    /// Enter the alternate screen.
    SaveTerminal,
    /// Leave the alternate screen.
    RestoreTerminal,
    /// Set mouse-report flag `.0` (press, press and release, motion,
    /// extended) to `.1`.
    Mouse(usize, bool),
    LineWrap(bool),
    SoftShift(bool),
    ShowCursor(bool),
    /// Erase from the cursor to the end of its line.
    EraseRightLine,
    /// Erase from the start of the cursor's line through the cursor.
    EraseLeftLine,
    /// Erase the cursor's whole line.
    EraseLine,
    /// Erase from the cursor to the end of the screen.
    EraseDown,
    /// Erase from the top of the screen through the cursor.
    EraseUp,
    /// Erase the whole screen.
    Clear,
    /// Delete this many cells at the cursor.
    EraseChars(usize),
    /// Insert this many blank cells at the cursor.
    InsertChars(usize),
    /// Insert a blank row at the cursor.
    InsertLine,
    Home,
    Up(usize),
    Down(usize),
    Right(usize),
    Left(usize),
    /// Move to this 1-based column.
    Column(usize),
    /// Move to this 1-based row.
    Row(usize),
    /// Move to this 1-based (row, column).
    Position(usize, usize),
    SavePosition,
    RestorePosition,
    /// Scroll at the cursor's row, up or down as the soft-shift mode says.
    ReverseIndex,
    /// Scroll up this many times at the cursor's row.
    ScrollCursorUp(usize),
    /// Scroll up this many times at the region's top.
    ScrollTopUp(usize),
    /// Scroll down this many times at the cursor's row.
    ScrollCursorDown(usize),
    /// Scroll down this many times at the region's top.
    ScrollTopDown(usize),
    /// Reset the drawing style.
    ResetStyle,
    /// Apply these rendition codes to the drawing style.
    Rendition(Vec<usize>),
    /// Set the scroll region to these 1-based rows.
    Region(usize, usize),
    Bell,
    /// Line feed and carriage return.
    Enter,
    /// Carriage return.
    Return,
    Tab,
    Print(char),
}

/// Whether the bytes at `i` are `pat`.
pub open spec fn lit_at(s: Seq<u8>, i: int, pat: Seq<u8>) -> bool {
    i + pat.len() <= s.len() && s.subrange(i, i + pat.len()) == pat
}

/// Whether the bytes from `i` are exactly `pat`, with nothing after.
pub open spec fn rest_is(s: Seq<u8>, i: int, pat: Seq<u8>) -> bool {
    i + pat.len() == s.len() && s.subrange(i, i + pat.len()) == pat
}

/// The offset past `pat` where the bytes at `i` are `pat`.
fn lit(buf: &[u8], i: usize, pat: &[u8]) -> (r: Option<usize>)
    requires
        i <= buf@.len(),
        pat@.len() > 0,
    ensures
        r matches Some(j) ==> j == i + pat@.len() && j <= buf@.len(),
        r is Some <==> lit_at(buf@, i as int, pat@),
{
    if pat.len() > buf.len() - i {
        return None;
    }
    let m = pat.len();
    let end = i + m;
    let mut k: usize = 0;
    while k < m
        invariant
            m == pat@.len(),
            end == i + m,
            k <= m,
            end <= buf@.len(),
            forall|j: int| 0 <= j < k ==> buf@[i + j] == pat@[j],
        decreases pat@.len() - k,
    {
        if buf[i + k] != pat[k] {
            proof {
                assert(buf@.subrange(i as int, i + pat@.len())[k as int] != pat@[k as int]);
            }
            return None;
        }
        k = k + 1;
    }
    proof {
        assert(buf@.subrange(i as int, i + pat@.len()) =~= pat@);
    }
    Some(end)
}

/// The end of the input where the bytes from `i` are exactly `pat`.
fn rest(buf: &[u8], i: usize, pat: &[u8]) -> (r: Option<usize>)
    requires
        i <= buf@.len(),
        pat@.len() > 0,
    ensures
        r matches Some(j) ==> j == buf@.len() && j > i,
        r is Some <==> rest_is(buf@, i as int, pat@),
{
    if buf.len() - i == pat.len() {
        lit(buf, i, pat)
    } else {
        None
    }
}

/// One step of the interpreter: the operation recognised at `i`, the
/// offset past what it takes, and whether it ends the input (a legacy
/// two-byte form that stands alone).
pub struct Step {
    pub op: Op,
    pub next: usize,
    pub last: bool,
}

/// Whether `op` is what the numbers `nums` and the final byte `f` of a
/// numeric sequence stand for: a motion, an erase or insert, a scroll or a
/// region with the count of numbers it needs, a rendition with any; anything
/// else is no operation.
pub open spec fn numeric_is(nums: Seq<usize>, f: u8, op: Op) -> bool {
    let one = nums.len() == 1;
    if f == 0x41 && one {
        op == Op::Up(nums[0])
    } else if f == 0x42 && one {
        op == Op::Down(nums[0])
    } else if f == 0x43 && one {
        op == Op::Right(nums[0])
    } else if f == 0x44 && one {
        op == Op::Left(nums[0])
    } else if f == 0x47 && one {
        op == Op::Column(nums[0])
    } else if f == 0x64 && one {
        op == Op::Row(nums[0])
    } else if (f == 0x48 || f == 0x66) && nums.len() == 2 {
        op == Op::Position(nums[0], nums[1])
    } else if f == 0x50 && one {
        op == Op::EraseChars(nums[0])
    } else if f == 0x40 && one {
        op == Op::InsertChars(nums[0])
    } else if f == 0x4D && one {
        op == Op::ScrollCursorUp(nums[0])
    } else if f == 0x53 && one {
        op == Op::ScrollTopUp(nums[0])
    } else if f == 0x4C && one {
        op == Op::ScrollCursorDown(nums[0])
    } else if f == 0x54 && one {
        op == Op::ScrollTopDown(nums[0])
    } else if f == 0x6D {
        op matches Op::Rendition(v) && v@ == nums
    } else if f == 0x72 && nums.len() == 2 {
        op == Op::Region(nums[0], nums[1])
    } else {
        op == Op::Nop
    }
}

/// The operation that a numeric sequence stands for: the numbers, then the
/// final byte `f`.
fn numeric_op(nums: &Vec<usize>, f: u8) -> (r: Op)
    ensures
        numeric_is(nums@, f, r),
{
    let one = nums.len() == 1;
    if f == 0x41 && one {
        Op::Up(nums[0])
    } else if f == 0x42 && one {
        Op::Down(nums[0])
    } else if f == 0x43 && one {
        Op::Right(nums[0])
    } else if f == 0x44 && one {
        Op::Left(nums[0])
    } else if f == 0x47 && one {
        Op::Column(nums[0])
    } else if f == 0x64 && one {
        Op::Row(nums[0])
    } else if (f == 0x48 || f == 0x66) && nums.len() == 2 {
        Op::Position(nums[0], nums[1])
    } else if f == 0x50 && one {
        Op::EraseChars(nums[0])
    } else if f == 0x40 && one {
        Op::InsertChars(nums[0])
    } else if f == 0x4D && one {
        Op::ScrollCursorUp(nums[0])
    } else if f == 0x53 && one {
        Op::ScrollTopUp(nums[0])
    } else if f == 0x4C && one {
        Op::ScrollCursorDown(nums[0])
    } else if f == 0x54 && one {
        Op::ScrollTopDown(nums[0])
    } else if f == 0x6D {
        let mut codes: Vec<usize> = Vec::new();
        let mut k: usize = 0;
        while k < nums.len()
            invariant
                k <= nums@.len(),
                codes@ == nums@.subrange(0, k as int),
            decreases nums@.len() - k,
        {
            proof {
                assert(nums@.subrange(0, k + 1) == nums@.subrange(0, k as int).push(nums@[k as int]));
            }
            codes.push(nums[k]);
            k = k + 1;
        }
        proof {
            assert(nums@.subrange(0, nums@.len() as int) == nums@);
        }
        Op::Rendition(codes)
    } else if f == 0x72 && nums.len() == 2 {
        Op::Region(nums[0], nums[1])
    } else {
        Op::Nop
    }
}

/// What `parse_modes` recognises at `i`.
pub open spec fn modes_at(s: Seq<u8>, i: int) -> Option<(Op, int, bool)>
    recommends
        0 <= i < s.len(),
{
    if lit_at(s, i, seq![0x1B, 0x5B, 0x3F, 0x31, 0x30, 0x34, 0x39, 0x68]) {
        Some((Op::SaveTerminal, i + 8, false))
    } else if lit_at(s, i, seq![0x1B, 0x5B, 0x3F, 0x31, 0x30, 0x34, 0x39, 0x6C]) {
        Some((Op::RestoreTerminal, i + 8, false))
    } else if lit_at(s, i, seq![0x1B, 0x5B, 0x3F, 0x39, 0x68]) {
        Some((Op::Mouse(0, true), i + 5, false))
    } else if lit_at(s, i, seq![0x1B, 0x5B, 0x3F, 0x39, 0x6C]) {
        Some((Op::Mouse(0, false), i + 5, false))
    } else if lit_at(s, i, seq![0x1B, 0x5B, 0x3F, 0x31, 0x30, 0x30, 0x30, 0x68]) {
        Some((Op::Mouse(1, true), i + 8, false))
    } else if lit_at(s, i, seq![0x1B, 0x5B, 0x3F, 0x31, 0x30, 0x30, 0x30, 0x6C]) {
        Some((Op::Mouse(1, false), i + 8, false))
    } else if lit_at(s, i, seq![0x1B, 0x5B, 0x3F, 0x31, 0x30, 0x30, 0x32, 0x68]) {
        Some((Op::Mouse(2, true), i + 8, false))
    } else if lit_at(s, i, seq![0x1B, 0x5B, 0x3F, 0x31, 0x30, 0x30, 0x32, 0x6C]) {
        Some((Op::Mouse(2, false), i + 8, false))
    } else if lit_at(s, i, seq![0x1B, 0x5B, 0x3F, 0x31, 0x30, 0x30, 0x36, 0x68]) {
        Some((Op::Mouse(3, true), i + 8, false))
    } else if lit_at(s, i, seq![0x1B, 0x5B, 0x3F, 0x31, 0x30, 0x30, 0x36, 0x6C]) {
        Some((Op::Mouse(3, false), i + 8, false))
    } else if lit_at(s, i, seq![0x1B, 0x63]) {
        Some((Op::Nop, i + 2, false))
    } else if lit_at(s, i, seq![0x1B, 0x5B, 0x3E, 0x30, 0x63]) {
        Some((Op::Nop, i + 5, false))
    } else if lit_at(s, i, seq![0x1B, 0x5B, 0x3E, 0x63]) {
        Some((Op::Nop, i + 4, false))
    } else if lit_at(s, i, seq![0x1B, 0x5B, 0x3F, 0x37, 0x68]) {
        Some((Op::LineWrap(true), i + 5, false))
    } else if lit_at(s, i, seq![0x1B, 0x5B, 0x32, 0x30, 0x68]) {
        Some((Op::LineWrap(true), i + 5, false))
    } else if lit_at(s, i, seq![0x1B, 0x5B, 0x3F, 0x37, 0x6C]) {
        Some((Op::LineWrap(false), i + 5, false))
    } else if lit_at(s, i, seq![0x1B, 0x5B, 0x37, 0x6C]) {
        Some((Op::LineWrap(false), i + 4, false))
    } else if lit_at(s, i, seq![0x1B, 0x5B, 0x32, 0x30, 0x6C]) {
        Some((Op::LineWrap(false), i + 5, false))
    } else if lit_at(s, i, seq![0x1B, 0x5B, 0x72]) {
        Some((Op::Nop, i + 3, false))
    } else if lit_at(s, i, seq![0x1B, 0x5B, 0x3F, 0x31, 0x68]) {
        Some((Op::SoftShift(true), i + 5, false))
    } else if lit_at(s, i, seq![0x1B, 0x5B, 0x3F, 0x31, 0x6C]) {
        Some((Op::SoftShift(false), i + 5, false))
    } else if lit_at(s, i, seq![0x1B, 0x5B, 0x3F, 0x32, 0x35, 0x68]) {
        Some((Op::ShowCursor(true), i + 6, false))
    } else if lit_at(s, i, seq![0x1B, 0x5B, 0x3F, 0x32, 0x35, 0x6C]) {
        Some((Op::ShowCursor(false), i + 6, false))
    } else {
        None
    }
}

/// Recognises the alternate-screen, mouse-report and mode sequences.
fn parse_modes(buf: &[u8], i: usize) -> (r: Option<Step>)
    requires
        i < buf@.len(),
    ensures
        r matches Some(st) ==> modes_at(buf@, i as int) == Some((st.op, st.next as int, st.last)),
        r is None ==> modes_at(buf@, i as int) is None,
        r matches Some(st) ==> i < st.next <= buf@.len() && (st.last ==> st.next == buf@.len()),
{
    // ESC [ ? 1 0 4 9 h
    if let Some(j) = lit(buf, i, &[ESC, 0x5B, 0x3F, 0x31, 0x30, 0x34, 0x39, 0x68]) {
        return Some(Step { op: Op::SaveTerminal, next: j, last: false });
    }
    // ESC [ ? 1 0 4 9 l
    if let Some(j) = lit(buf, i, &[ESC, 0x5B, 0x3F, 0x31, 0x30, 0x34, 0x39, 0x6C]) {
        return Some(Step { op: Op::RestoreTerminal, next: j, last: false });
    }
    // ESC [ ? 9 h
    if let Some(j) = lit(buf, i, &[ESC, 0x5B, 0x3F, 0x39, 0x68]) {
        return Some(Step { op: Op::Mouse(0, true), next: j, last: false });
    }
    // ESC [ ? 9 l
    if let Some(j) = lit(buf, i, &[ESC, 0x5B, 0x3F, 0x39, 0x6C]) {
        return Some(Step { op: Op::Mouse(0, false), next: j, last: false });
    }
    // ESC [ ? 1 0 0 0 h
    if let Some(j) = lit(buf, i, &[ESC, 0x5B, 0x3F, 0x31, 0x30, 0x30, 0x30, 0x68]) {
        return Some(Step { op: Op::Mouse(1, true), next: j, last: false });
    }
    // ESC [ ? 1 0 0 0 l
    if let Some(j) = lit(buf, i, &[ESC, 0x5B, 0x3F, 0x31, 0x30, 0x30, 0x30, 0x6C]) {
        return Some(Step { op: Op::Mouse(1, false), next: j, last: false });
    }
    // ESC [ ? 1 0 0 2 h
    if let Some(j) = lit(buf, i, &[ESC, 0x5B, 0x3F, 0x31, 0x30, 0x30, 0x32, 0x68]) {
        return Some(Step { op: Op::Mouse(2, true), next: j, last: false });
    }
    // ESC [ ? 1 0 0 2 l
    if let Some(j) = lit(buf, i, &[ESC, 0x5B, 0x3F, 0x31, 0x30, 0x30, 0x32, 0x6C]) {
        return Some(Step { op: Op::Mouse(2, false), next: j, last: false });
    }
    // ESC [ ? 1 0 0 6 h
    if let Some(j) = lit(buf, i, &[ESC, 0x5B, 0x3F, 0x31, 0x30, 0x30, 0x36, 0x68]) {
        return Some(Step { op: Op::Mouse(3, true), next: j, last: false });
    }
    // ESC [ ? 1 0 0 6 l
    if let Some(j) = lit(buf, i, &[ESC, 0x5B, 0x3F, 0x31, 0x30, 0x30, 0x36, 0x6C]) {
        return Some(Step { op: Op::Mouse(3, false), next: j, last: false });
    }
    // ESC c
    if let Some(j) = lit(buf, i, &[ESC, 0x63]) {
        return Some(Step { op: Op::Nop, next: j, last: false });
    }
    // ESC [ > 0 c
    if let Some(j) = lit(buf, i, &[ESC, 0x5B, 0x3E, 0x30, 0x63]) {
        return Some(Step { op: Op::Nop, next: j, last: false });
    }
    // ESC [ > c
    if let Some(j) = lit(buf, i, &[ESC, 0x5B, 0x3E, 0x63]) {
        return Some(Step { op: Op::Nop, next: j, last: false });
    }
    // ESC [ ? 7 h
    if let Some(j) = lit(buf, i, &[ESC, 0x5B, 0x3F, 0x37, 0x68]) {
        return Some(Step { op: Op::LineWrap(true), next: j, last: false });
    }
    // ESC [ 2 0 h
    if let Some(j) = lit(buf, i, &[ESC, 0x5B, 0x32, 0x30, 0x68]) {
        return Some(Step { op: Op::LineWrap(true), next: j, last: false });
    }
    // ESC [ ? 7 l
    if let Some(j) = lit(buf, i, &[ESC, 0x5B, 0x3F, 0x37, 0x6C]) {
        return Some(Step { op: Op::LineWrap(false), next: j, last: false });
    }
    // ESC [ 7 l
    if let Some(j) = lit(buf, i, &[ESC, 0x5B, 0x37, 0x6C]) {
        return Some(Step { op: Op::LineWrap(false), next: j, last: false });
    }
    // ESC [ 2 0 l
    if let Some(j) = lit(buf, i, &[ESC, 0x5B, 0x32, 0x30, 0x6C]) {
        return Some(Step { op: Op::LineWrap(false), next: j, last: false });
    }
    // ESC [ r
    if let Some(j) = lit(buf, i, &[ESC, 0x5B, 0x72]) {
        return Some(Step { op: Op::Nop, next: j, last: false });
    }
    // ESC [ ? 1 h
    if let Some(j) = lit(buf, i, &[ESC, 0x5B, 0x3F, 0x31, 0x68]) {
        return Some(Step { op: Op::SoftShift(true), next: j, last: false });
    }
    // ESC [ ? 1 l
    if let Some(j) = lit(buf, i, &[ESC, 0x5B, 0x3F, 0x31, 0x6C]) {
        return Some(Step { op: Op::SoftShift(false), next: j, last: false });
    }
    // ESC [ ? 2 5 h
    if let Some(j) = lit(buf, i, &[ESC, 0x5B, 0x3F, 0x32, 0x35, 0x68]) {
        return Some(Step { op: Op::ShowCursor(true), next: j, last: false });
    }
    // ESC [ ? 2 5 l
    if let Some(j) = lit(buf, i, &[ESC, 0x5B, 0x3F, 0x32, 0x35, 0x6C]) {
        return Some(Step { op: Op::ShowCursor(false), next: j, last: false });
    }
    None
}

/// What `parse_edits` recognises at `i`.
pub open spec fn edits_at(s: Seq<u8>, i: int) -> Option<(Op, int, bool)>
    recommends
        0 <= i < s.len(),
{
    if lit_at(s, i, seq![0x1B, 0x5B, 0x4B]) {
        Some((Op::EraseRightLine, i + 3, false))
    } else if lit_at(s, i, seq![0x1B, 0x5B, 0x30, 0x4B]) {
        Some((Op::EraseRightLine, i + 4, false))
    } else if lit_at(s, i, seq![0x1B, 0x5B, 0x31, 0x4B]) {
        Some((Op::EraseLeftLine, i + 4, false))
    } else if lit_at(s, i, seq![0x1B, 0x5B, 0x32, 0x4B]) {
        Some((Op::EraseLine, i + 4, false))
    } else if lit_at(s, i, seq![0x1B, 0x5B, 0x4A]) {
        Some((Op::EraseDown, i + 3, false))
    } else if lit_at(s, i, seq![0x1B, 0x5B, 0x30, 0x4A]) {
        Some((Op::EraseDown, i + 4, false))
    } else if lit_at(s, i, seq![0x1B, 0x5B, 0x31, 0x4A]) {
        Some((Op::EraseUp, i + 4, false))
    } else if lit_at(s, i, seq![0x1B, 0x5B, 0x32, 0x4A]) {
        Some((Op::Clear, i + 4, false))
    } else if lit_at(s, i, seq![0x1B, 0x5B, 0x50]) {
        Some((Op::EraseChars(1), i + 3, false))
    } else if lit_at(s, i, seq![0x1B, 0x5B, 0x4C]) {
        Some((Op::InsertLine, i + 3, false))
    } else if lit_at(s, i, seq![0x1B, 0x5B, 0x40]) {
        Some((Op::InsertChars(1), i + 3, false))
    } else if lit_at(s, i, seq![0x1B, 0x5B, 0x3B, 0x48]) {
        Some((Op::Home, i + 4, false))
    } else if lit_at(s, i, seq![0x1B, 0x5B, 0x3B, 0x66]) {
        Some((Op::Home, i + 4, false))
    } else if lit_at(s, i, seq![0x1B, 0x5B, 0x64]) {
        Some((Op::Home, i + 3, false))
    } else if lit_at(s, i, seq![0x1B, 0x5B, 0x48]) {
        Some((Op::Home, i + 3, false))
    } else if lit_at(s, i, seq![0x1B, 0x5B, 0x66]) {
        Some((Op::Home, i + 3, false))
    } else {
        None
    }
}

/// Recognises the erase and insert sequences and the short forms of the home position.
fn parse_edits(buf: &[u8], i: usize) -> (r: Option<Step>)
    requires
        i < buf@.len(),
    ensures
        r matches Some(st) ==> edits_at(buf@, i as int) == Some((st.op, st.next as int, st.last)),
        r is None ==> edits_at(buf@, i as int) is None,
        r matches Some(st) ==> i < st.next <= buf@.len() && (st.last ==> st.next == buf@.len()),
{
    // ESC [ K
    if let Some(j) = lit(buf, i, &[ESC, 0x5B, 0x4B]) {
        return Some(Step { op: Op::EraseRightLine, next: j, last: false });
    }
    // ESC [ 0 K
    if let Some(j) = lit(buf, i, &[ESC, 0x5B, 0x30, 0x4B]) {
        return Some(Step { op: Op::EraseRightLine, next: j, last: false });
    }
    // ESC [ 1 K
    if let Some(j) = lit(buf, i, &[ESC, 0x5B, 0x31, 0x4B]) {
        return Some(Step { op: Op::EraseLeftLine, next: j, last: false });
    }
    // ESC [ 2 K
    if let Some(j) = lit(buf, i, &[ESC, 0x5B, 0x32, 0x4B]) {
        return Some(Step { op: Op::EraseLine, next: j, last: false });
    }
    // ESC [ J
    if let Some(j) = lit(buf, i, &[ESC, 0x5B, 0x4A]) {
        return Some(Step { op: Op::EraseDown, next: j, last: false });
    }
    // ESC [ 0 J
    if let Some(j) = lit(buf, i, &[ESC, 0x5B, 0x30, 0x4A]) {
        return Some(Step { op: Op::EraseDown, next: j, last: false });
    }
    // ESC [ 1 J
    if let Some(j) = lit(buf, i, &[ESC, 0x5B, 0x31, 0x4A]) {
        return Some(Step { op: Op::EraseUp, next: j, last: false });
    }
    // ESC [ 2 J
    if let Some(j) = lit(buf, i, &[ESC, 0x5B, 0x32, 0x4A]) {
        return Some(Step { op: Op::Clear, next: j, last: false });
    }
    // ESC [ P
    if let Some(j) = lit(buf, i, &[ESC, 0x5B, 0x50]) {
        return Some(Step { op: Op::EraseChars(1), next: j, last: false });
    }
    // ESC [ L
    if let Some(j) = lit(buf, i, &[ESC, 0x5B, 0x4C]) {
        return Some(Step { op: Op::InsertLine, next: j, last: false });
    }
    // ESC [ @
    if let Some(j) = lit(buf, i, &[ESC, 0x5B, 0x40]) {
        return Some(Step { op: Op::InsertChars(1), next: j, last: false });
    }
    // ESC [ ; H
    if let Some(j) = lit(buf, i, &[ESC, 0x5B, 0x3B, 0x48]) {
        return Some(Step { op: Op::Home, next: j, last: false });
    }
    // ESC [ ; f
    if let Some(j) = lit(buf, i, &[ESC, 0x5B, 0x3B, 0x66]) {
        return Some(Step { op: Op::Home, next: j, last: false });
    }
    // ESC [ d
    if let Some(j) = lit(buf, i, &[ESC, 0x5B, 0x64]) {
        return Some(Step { op: Op::Home, next: j, last: false });
    }
    // ESC [ H
    if let Some(j) = lit(buf, i, &[ESC, 0x5B, 0x48]) {
        return Some(Step { op: Op::Home, next: j, last: false });
    }
    // ESC [ f
    if let Some(j) = lit(buf, i, &[ESC, 0x5B, 0x66]) {
        return Some(Step { op: Op::Home, next: j, last: false });
    }
    None
}

/// What `parse_motions` recognises at `i`.
pub open spec fn motions_at(s: Seq<u8>, i: int) -> Option<(Op, int, bool)>
    recommends
        0 <= i < s.len(),
{
    if lit_at(s, i, seq![0x1B, 0x5B, 0x41]) {
        Some((Op::Up(1), i + 3, false))
    } else if lit_at(s, i, seq![0x1B, 0x5B, 0x6D, 0x41, 0x08]) {
        Some((Op::Up(1), i + 5, false))
    } else if lit_at(s, i, seq![0x1B, 0x4F, 0x41]) {
        Some((Op::Up(1), i + 3, false))
    } else if rest_is(s, i, seq![0x41, 0x08]) {
        Some((Op::Up(1), s.len() as int, true))
    } else if lit_at(s, i, seq![0x1B, 0x5B, 0x42]) {
        Some((Op::Down(1), i + 3, false))
    } else if lit_at(s, i, seq![0x1B, 0x5B, 0x6D, 0x42, 0x08]) {
        Some((Op::Down(1), i + 5, false))
    } else if lit_at(s, i, seq![0x1B, 0x44]) {
        Some((Op::Down(1), i + 2, false))
    } else if lit_at(s, i, seq![0x1B, 0x4F, 0x42]) {
        Some((Op::Down(1), i + 3, false))
    } else if rest_is(s, i, seq![0x42, 0x08]) {
        Some((Op::Down(1), s.len() as int, true))
    } else if lit_at(s, i, seq![0x1B, 0x5B, 0x43]) {
        Some((Op::Right(1), i + 3, false))
    } else if lit_at(s, i, seq![0x1B, 0x5B, 0x6D, 0x43, 0x08]) {
        Some((Op::Right(1), i + 5, false))
    } else if lit_at(s, i, seq![0x1B, 0x4F, 0x43]) {
        Some((Op::Right(1), i + 3, false))
    } else if rest_is(s, i, seq![0x43, 0x08]) {
        Some((Op::Right(1), s.len() as int, true))
    } else if lit_at(s, i, seq![0x1B, 0x5B, 0x44]) {
        Some((Op::Left(1), i + 3, false))
    } else if lit_at(s, i, seq![0x1B, 0x5B, 0x6D, 0x44, 0x08]) {
        Some((Op::Left(1), i + 5, false))
    } else if lit_at(s, i, seq![0x1B, 0x4F, 0x44]) {
        Some((Op::Left(1), i + 3, false))
    } else if s[i] == 0x08 {
        Some((Op::Left(1), i + 1, false))
    } else if rest_is(s, i, seq![0x44, 0x08]) {
        Some((Op::Left(1), s.len() as int, true))
    } else if lit_at(s, i, seq![0x1B, 0x5B, 0x73]) {
        Some((Op::SavePosition, i + 3, false))
    } else if lit_at(s, i, seq![0x1B, 0x37]) {
        Some((Op::SavePosition, i + 2, false))
    } else if lit_at(s, i, seq![0x1B, 0x5B, 0x75]) {
        Some((Op::RestorePosition, i + 3, false))
    } else if lit_at(s, i, seq![0x1B, 0x38]) {
        Some((Op::RestorePosition, i + 2, false))
    } else {
        None
    }
}

/// Recognises the one-step cursor motions, their legacy forms, and the cursor save and restore.
fn parse_motions(buf: &[u8], i: usize) -> (r: Option<Step>)
    requires
        i < buf@.len(),
    ensures
        r matches Some(st) ==> motions_at(buf@, i as int) == Some((st.op, st.next as int, st.last)),
        r is None ==> motions_at(buf@, i as int) is None,
        r matches Some(st) ==> i < st.next <= buf@.len() && (st.last ==> st.next == buf@.len()),
{
    // ESC [ A
    if let Some(j) = lit(buf, i, &[ESC, 0x5B, 0x41]) {
        return Some(Step { op: Op::Up(1), next: j, last: false });
    }
    // ESC [ m A 0x08
    if let Some(j) = lit(buf, i, &[ESC, 0x5B, 0x6D, 0x41, 0x08]) {
        return Some(Step { op: Op::Up(1), next: j, last: false });
    }
    // ESC O A
    if let Some(j) = lit(buf, i, &[ESC, 0x4F, 0x41]) {
        return Some(Step { op: Op::Up(1), next: j, last: false });
    }
    // A 0x08, alone at the end
    if let Some(j) = rest(buf, i, &[0x41, 0x08]) {
        return Some(Step { op: Op::Up(1), next: j, last: true });
    }
    // ESC [ B
    if let Some(j) = lit(buf, i, &[ESC, 0x5B, 0x42]) {
        return Some(Step { op: Op::Down(1), next: j, last: false });
    }
    // ESC [ m B 0x08
    if let Some(j) = lit(buf, i, &[ESC, 0x5B, 0x6D, 0x42, 0x08]) {
        return Some(Step { op: Op::Down(1), next: j, last: false });
    }
    // ESC D
    if let Some(j) = lit(buf, i, &[ESC, 0x44]) {
        return Some(Step { op: Op::Down(1), next: j, last: false });
    }
    // ESC O B
    if let Some(j) = lit(buf, i, &[ESC, 0x4F, 0x42]) {
        return Some(Step { op: Op::Down(1), next: j, last: false });
    }
    // B 0x08, alone at the end
    if let Some(j) = rest(buf, i, &[0x42, 0x08]) {
        return Some(Step { op: Op::Down(1), next: j, last: true });
    }
    // ESC [ C
    if let Some(j) = lit(buf, i, &[ESC, 0x5B, 0x43]) {
        return Some(Step { op: Op::Right(1), next: j, last: false });
    }
    // ESC [ m C 0x08
    if let Some(j) = lit(buf, i, &[ESC, 0x5B, 0x6D, 0x43, 0x08]) {
        return Some(Step { op: Op::Right(1), next: j, last: false });
    }
    // ESC O C
    if let Some(j) = lit(buf, i, &[ESC, 0x4F, 0x43]) {
        return Some(Step { op: Op::Right(1), next: j, last: false });
    }
    // C 0x08, alone at the end
    if let Some(j) = rest(buf, i, &[0x43, 0x08]) {
        return Some(Step { op: Op::Right(1), next: j, last: true });
    }
    // ESC [ D
    if let Some(j) = lit(buf, i, &[ESC, 0x5B, 0x44]) {
        return Some(Step { op: Op::Left(1), next: j, last: false });
    }
    // ESC [ m D 0x08
    if let Some(j) = lit(buf, i, &[ESC, 0x5B, 0x6D, 0x44, 0x08]) {
        return Some(Step { op: Op::Left(1), next: j, last: false });
    }
    // ESC O D
    if let Some(j) = lit(buf, i, &[ESC, 0x4F, 0x44]) {
        return Some(Step { op: Op::Left(1), next: j, last: false });
    }
    // 0x08
    if buf[i] == 0x08 {
        return Some(Step { op: Op::Left(1), next: i + 1, last: false });
    }
    // D 0x08, alone at the end
    if let Some(j) = rest(buf, i, &[0x44, 0x08]) {
        return Some(Step { op: Op::Left(1), next: j, last: true });
    }
    // ESC [ s
    if let Some(j) = lit(buf, i, &[ESC, 0x5B, 0x73]) {
        return Some(Step { op: Op::SavePosition, next: j, last: false });
    }
    // ESC 7
    if let Some(j) = lit(buf, i, &[ESC, 0x37]) {
        return Some(Step { op: Op::SavePosition, next: j, last: false });
    }
    // ESC [ u
    if let Some(j) = lit(buf, i, &[ESC, 0x5B, 0x75]) {
        return Some(Step { op: Op::RestorePosition, next: j, last: false });
    }
    // ESC 8
    if let Some(j) = lit(buf, i, &[ESC, 0x38]) {
        return Some(Step { op: Op::RestorePosition, next: j, last: false });
    }
    None
}

/// What `parse_scrolls` recognises at `i`.
pub open spec fn scrolls_at(s: Seq<u8>, i: int) -> Option<(Op, int, bool)>
    recommends
        0 <= i < s.len(),
{
    if lit_at(s, i, seq![0x1B, 0x4D]) {
        Some((Op::ReverseIndex, i + 2, false))
    } else if lit_at(s, i, seq![0x1B, 0x5B, 0x4D]) {
        Some((Op::ScrollCursorUp(1), i + 3, false))
    } else if lit_at(s, i, seq![0x1B, 0x5B, 0x53]) {
        Some((Op::ScrollTopUp(1), i + 3, false))
    } else if lit_at(s, i, seq![0x1B, 0x53]) {
        Some((Op::ScrollTopUp(1), i + 2, false))
    } else if lit_at(s, i, seq![0x1B, 0x4C]) {
        Some((Op::ScrollCursorDown(1), i + 2, false))
    } else if lit_at(s, i, seq![0x1B, 0x5B, 0x54]) {
        Some((Op::ScrollTopDown(1), i + 3, false))
    } else if lit_at(s, i, seq![0x1B, 0x54]) {
        Some((Op::ScrollTopDown(1), i + 2, false))
    } else if lit_at(s, i, seq![0x1B, 0x5B, 0x3F, 0x31, 0x32, 0x6C]) {
        Some((Op::ResetStyle, i + 6, false))
    } else if lit_at(s, i, seq![0x1B, 0x5B, 0x30, 0x6D]) {
        Some((Op::ResetStyle, i + 4, false))
    } else if lit_at(s, i, seq![0x1B, 0x5B, 0x6D]) {
        Some((Op::ResetStyle, i + 3, false))
    } else {
        None
    }
}

/// Recognises the one-step scroll sequences and the style reset.
fn parse_scrolls(buf: &[u8], i: usize) -> (r: Option<Step>)
    requires
        i < buf@.len(),
    ensures
        r matches Some(st) ==> scrolls_at(buf@, i as int) == Some((st.op, st.next as int, st.last)),
        r is None ==> scrolls_at(buf@, i as int) is None,
        r matches Some(st) ==> i < st.next <= buf@.len() && (st.last ==> st.next == buf@.len()),
{
    // ESC M
    if let Some(j) = lit(buf, i, &[ESC, 0x4D]) {
        return Some(Step { op: Op::ReverseIndex, next: j, last: false });
    }
    // ESC [ M
    if let Some(j) = lit(buf, i, &[ESC, 0x5B, 0x4D]) {
        return Some(Step { op: Op::ScrollCursorUp(1), next: j, last: false });
    }
    // ESC [ S
    if let Some(j) = lit(buf, i, &[ESC, 0x5B, 0x53]) {
        return Some(Step { op: Op::ScrollTopUp(1), next: j, last: false });
    }
    // ESC S
    if let Some(j) = lit(buf, i, &[ESC, 0x53]) {
        return Some(Step { op: Op::ScrollTopUp(1), next: j, last: false });
    }
    // ESC L
    if let Some(j) = lit(buf, i, &[ESC, 0x4C]) {
        return Some(Step { op: Op::ScrollCursorDown(1), next: j, last: false });
    }
    // ESC [ T
    if let Some(j) = lit(buf, i, &[ESC, 0x5B, 0x54]) {
        return Some(Step { op: Op::ScrollTopDown(1), next: j, last: false });
    }
    // ESC T
    if let Some(j) = lit(buf, i, &[ESC, 0x54]) {
        return Some(Step { op: Op::ScrollTopDown(1), next: j, last: false });
    }
    // ESC [ ? 1 2 l
    if let Some(j) = lit(buf, i, &[ESC, 0x5B, 0x3F, 0x31, 0x32, 0x6C]) {
        return Some(Step { op: Op::ResetStyle, next: j, last: false });
    }
    // ESC [ 0 m
    if let Some(j) = lit(buf, i, &[ESC, 0x5B, 0x30, 0x6D]) {
        return Some(Step { op: Op::ResetStyle, next: j, last: false });
    }
    // ESC [ m
    if let Some(j) = lit(buf, i, &[ESC, 0x5B, 0x6D]) {
        return Some(Step { op: Op::ResetStyle, next: j, last: false });
    }
    None
}

/// What `parse_controls` recognises at `i`.
pub open spec fn controls_at(s: Seq<u8>, i: int) -> Option<(Op, int, bool)>
    recommends
        0 <= i < s.len(),
{
    if s[i] == 0x07 {
        Some((Op::Bell, i + 1, false))
    } else if lit_at(s, i, seq![0x0A, 0x0D]) {
        Some((Op::Enter, i + 2, false))
    } else if s[i] == 0x0A {
        Some((Op::Enter, i + 1, false))
    } else if lit_at(s, i, seq![0x0D, 0x0A]) {
        Some((Op::Enter, i + 2, false))
    } else if s[i] == 0x0D {
        Some((Op::Return, i + 1, false))
    } else if s[i] == 0x09 {
        Some((Op::Tab, i + 1, false))
    } else {
        None
    }
}

/// Recognises the bell, the line endings and the tab.
fn parse_controls(buf: &[u8], i: usize) -> (r: Option<Step>)
    requires
        i < buf@.len(),
    ensures
        r matches Some(st) ==> controls_at(buf@, i as int) == Some((st.op, st.next as int, st.last)),
        r is None ==> controls_at(buf@, i as int) is None,
        r matches Some(s) ==> i < s.next <= buf@.len() && (s.last ==> s.next == buf@.len()),
{
    // 0x07
    if buf[i] == 0x07 {
        return Some(Step { op: Op::Bell, next: i + 1, last: false });
    }
    // 0x0A 0x0D
    if let Some(j) = lit(buf, i, &[0x0A, 0x0D]) {
        return Some(Step { op: Op::Enter, next: j, last: false });
    }
    // 0x0A
    if buf[i] == 0x0A {
        return Some(Step { op: Op::Enter, next: i + 1, last: false });
    }
    // 0x0D 0x0A
    if let Some(j) = lit(buf, i, &[0x0D, 0x0A]) {
        return Some(Step { op: Op::Enter, next: j, last: false });
    }
    // 0x0D
    if buf[i] == 0x0D {
        return Some(Step { op: Op::Return, next: i + 1, last: false });
    }
    // 0x09
    if buf[i] == 0x09 {
        return Some(Step { op: Op::Tab, next: i + 1, last: false });
    }
    None
}

/// Whether `op` and `next` are what the numeric sequence whose introducer
/// ends at `p` stands for: the numbers, then one final byte (two for `m %`
/// and `; c`); input that ends before the final byte is no operation.
pub open spec fn numeric_at(s: Seq<u8>, p: int, op: Op, next: int) -> bool {
    let (nums, j) = numbers_at(s, p);
    if j >= s.len() {
        op == Op::Nop && next == s.len()
    } else if s[j] == 0x6D && j + 1 < s.len() && s[j + 1] == 0x25 {
        numeric_is(nums, s[j], op) && next == j + 2
    } else if s[j] == 0x3B && j + 1 < s.len() && s[j + 1] == 0x63 {
        op == Op::Nop && next == j + 2
    } else {
        numeric_is(nums, s[j], op) && next == j + 1
    }
}

/// The end of the introducer of the escape sequence at `i`: `ESC [ ?` and
/// `ESC [ >` take three bytes; `ESC [`, `ESC ]`, `ESC (` and `ESC ?` two;
/// any other `ESC` one.
pub open spec fn intro_end(s: Seq<u8>, i: int) -> int {
    if lit_at(s, i, seq![0x1B, 0x5B, 0x3F]) || lit_at(s, i, seq![0x1B, 0x5B, 0x3E]) {
        i + 3
    } else if lit_at(s, i, seq![0x1B, 0x5B]) || lit_at(s, i, seq![0x1B, 0x5D]) || lit_at(s, i, seq![0x1B, 0x28])
        || lit_at(s, i, seq![0x1B, 0x3F]) {
        i + 2
    } else {
        i + 1
    }
}

/// Whether `op` and `next` are what the glyph at `i` stands for: the printed
/// character of the code point that a lead byte and its continuation bytes
/// spell, or nothing (one byte skipped) where the bytes do not make a glyph.
pub open spec fn glyph_step(s: Seq<u8>, i: int, op: Op, next: int) -> bool {
    let n = lead_len(s[i]);
    if n > 0 && i + n <= s.len() && continued(s, i, n) {
        op matches Op::Print(c) && c as u32 == printed(decoded(s, i, n)) && next == i + n
    } else {
        op == Op::Nop && next == i + 1
    }
}

/// Whether `op`, `next` and `last` are what the input at `i` stands for:
/// the known sequences in their fixed order, then any other escape sequence
/// as numbers and a final byte, then the control bytes, then a glyph.
pub open spec fn parsed(s: Seq<u8>, i: int, op: Op, next: int, last: bool) -> bool {
    if modes_at(s, i) is Some {
        modes_at(s, i) == Some((op, next, last))
    } else if edits_at(s, i) is Some {
        edits_at(s, i) == Some((op, next, last))
    } else if motions_at(s, i) is Some {
        motions_at(s, i) == Some((op, next, last))
    } else if scrolls_at(s, i) is Some {
        scrolls_at(s, i) == Some((op, next, last))
    } else if s[i] == 0x1B {
        !last && numeric_at(s, intro_end(s, i), op, next)
    } else if controls_at(s, i) is Some {
        controls_at(s, i) == Some((op, next, last))
    } else {
        !last && glyph_step(s, i, op, next)
    }
}

/// Reads the numbers and the final byte of an escape sequence whose
/// introducer ends at `p`.
fn parse_numeric(buf: &[u8], p: usize) -> (r: Step)
    requires
        p <= buf@.len(),
    ensures
        numeric_at(buf@, p as int, r.op, r.next as int),
        p <= r.next <= buf@.len(),
        p < buf@.len() ==> p < r.next,
        !r.last,
{
    let n = buf.len();
    let (nums, j) = parse_numbers(buf, p);
    if j >= n {
        Step { op: Op::Nop, next: n, last: false }
    } else {
        let f = buf[j];
        if f == 0x6D && j + 1 < n && buf[j + 1] == 0x25 {
            // m %
            Step { op: numeric_op(&nums, f), next: j + 2, last: false }
        } else if f == 0x3B && j + 1 < n && buf[j + 1] == 0x63 {
            // ; c
            Step { op: Op::Nop, next: j + 2, last: false }
        } else {
            Step { op: numeric_op(&nums, f), next: j + 1, last: false }
        }
    }
}

/// Recognises the operation that starts at `i`. The known sequences are
/// tried in a fixed order; any other escape sequence is read as numbers and
/// a final byte; any other byte starts a glyph.
pub fn parse_op(buf: &[u8], i: usize) -> (r: Step)
    requires
        i < buf@.len(),
    ensures
        parsed(buf@, i as int, r.op, r.next as int, r.last),
        i < r.next <= buf@.len(),
        r.last ==> r.next == buf@.len(),
{
    if let Some(s) = parse_modes(buf, i) {
        return s;
    }
    if let Some(s) = parse_edits(buf, i) {
        return s;
    }
    if let Some(s) = parse_motions(buf, i) {
        return s;
    }
    if let Some(s) = parse_scrolls(buf, i) {
        return s;
    }
    if buf[i] == ESC {
        // ESC [ ?, ESC [ >: three bytes; ESC [, ESC ], ESC (, ESC ?: two; ESC alone: one
        let p: usize = if lit(buf, i, &[ESC, 0x5B, 0x3F]).is_some() || lit(buf, i, &[ESC, 0x5B, 0x3E]).is_some() {
            i + 3
        } else if lit(buf, i, &[ESC, 0x5B]).is_some() || lit(buf, i, &[ESC, 0x5D]).is_some() || lit(
            buf,
            i,
            &[ESC, 0x28],
        ).is_some() || lit(buf, i, &[ESC, 0x3F]).is_some() {
            i + 2
        } else {
            i + 1
        };
        return parse_numeric(buf, p);
    }
    if let Some(s) = parse_controls(buf, i) {
        return s;
    }
    let (glyph, next) = decode_glyph(buf, i);
    match glyph {
        Some(c) => Step { op: Op::Print(c), next, last: false },
        None => Step { op: Op::Nop, next, last: false },
    }
}


/// `v` clamped to the last of `n` places.
pub open spec fn clamp(v: int, n: int) -> int {
    if v < n {
        v
    } else {
        n - 1
    }
}

/// The mouse-report flags with flag `k` set to `on` (the last flag for any
/// `k` past it).
pub open spec fn set_mouse(m: (bool, bool, bool, bool), k: usize, on: bool) -> (bool, bool, bool, bool) {
    if k == 0 {
        (on, m.1, m.2, m.3)
    } else if k == 1 {
        (m.0, on, m.2, m.3)
    } else if k == 2 {
        (m.0, m.1, on, m.3)
    } else {
        (m.0, m.1, m.2, on)
    }
}

/// `n` scrolls up at row `base`, one after the other.
pub open spec fn scrolled_up_times(a: Display, b: Display, base: int, n: nat) -> bool
    decreases n,
{
    if n == 0 {
        b == a
    } else {
        exists|mid: Display| #[trigger] mid.scrolled_up_from(&a, base) && scrolled_up_times(mid, b, base, (n - 1) as nat)
    }
}

/// `n` scrolls down at row `base`, one after the other.
pub open spec fn scrolled_down_times(a: Display, b: Display, base: int, n: nat) -> bool
    decreases n,
{
    if n == 0 {
        b == a
    } else {
        exists|mid: Display| #[trigger] mid.scrolled_down_from(&a, base) && scrolled_down_times(mid, b, base, (n - 1) as nat)
    }
}

/// `b` is `a` with its grid replaced by `s`, all else kept.
pub open spec fn with_screen(a: Display, b: Display, s: Seq<Character>) -> bool {
    &&& b.table.screen@ == s
    &&& b.table.equiv(&Table { screen: b.table.screen, ..a.table })
    &&& b.save_terminal == a.save_terminal
}

/// Whether the cursor's row lies inside the scroll region.
pub open spec fn in_region(t: Table) -> bool {
    t.region.0 <= t.oob.1 < t.region.1
}

/// The number of scrolls that a count asks for: past the region's height
/// every further scroll changes nothing.
pub open spec fn scroll_count(t: Table, k: usize) -> nat {
    let h = t.region.1 - t.region.0;
    if k < h {
        k as nat
    } else {
        h as nat
    }
}

/// What one operation does to an active screen `a`, giving `b`.
pub open spec fn applied(a: Display, b: Display, op: Op) -> bool {
    let t = a.table;
    let c = t.cols();
    let r = t.rows();
    let x = t.oob.0 as int;
    let y = t.oob.1 as int;
    let s = t.screen@;
    let w = t.newline@;
    let pos = t.pos as int;
    let border = line_border(w, c, s.len() as int, y);
    match op {
        Op::Nop => b == a,
        Op::SaveTerminal => b.table == t && (b.save_terminal matches Some(k) && k.equiv(&t)),
        Op::RestoreTerminal => {
            &&& b.save_terminal is None
            &&& match a.save_terminal {
                Some(k) => b.table.screen@ == k.uncursored() && b.table.equiv(&Table { screen: b.table.screen, ..k }),
                None => b.table.screen@ == t.uncursored() && b.table.equiv(&Table { screen: b.table.screen, ..t }),
            }
        },
        Op::Mouse(k, on) => b == Display { table: Table { mouse_handle: set_mouse(t.mouse_handle, k, on), ..t }, ..a },
        Op::LineWrap(on) => b == Display { table: Table { line_wrap: on, ..t }, ..a },
        Op::SoftShift(on) => b == Display { table: Table { ss_mod: on, ..t }, ..a },
        Op::ShowCursor(on) => {
            &&& b.table.screen@ == restyle(s, pos, if on { cursor_operate() } else { t.collection.operate })
            &&& b.table.equiv(&Table { show_cursor: on, screen: b.table.screen, ..t })
            &&& b.save_terminal == a.save_terminal
        },
        Op::EraseRightLine => with_screen(a, b, erased_right(s, w, c, pos, pos, t.collection)),
        Op::EraseLeftLine => with_screen(a, b, erased_left(s, w, c, pos, pos, t.collection)),
        Op::EraseLine => with_screen(a, b, erased_lines(s, w, c, pos, t.collection, x, y, 1)),
        Op::EraseDown => with_screen(a, b, fill(s, pos, s.len() as int, t.collection)),
        Op::EraseUp => with_screen(a, b, fill(s, 0, pos + 1, t.collection)),
        Op::Clear => {
            &&& b.table.screen@ == copies(Character::spec_default(), t.size.area())
            &&& b.table.newline@ == all_wraps(r)
            &&& b.table.same_settings(&t)
            &&& b.table.oob == t.oob
            &&& b.table.pos == t.pos
            &&& b.save_terminal == a.save_terminal
        },
        Op::EraseChars(k) => with_screen(
            a,
            b,
            rotate_out(s, pos, border, t.collection, if k < border - pos { k as int } else { border - pos }),
        ),
        Op::InsertChars(k) => with_screen(
            a,
            b,
            rotate_in(s, pos, border, t.collection, if k < border - pos { k as int } else { border - pos }),
        ),
        Op::InsertLine => if in_region(t) && pos < t.region.1 * c {
            let end = t.region.1 * c;
            with_screen(a, b, rotate_in(s, pos, end, t.collection, if c < end - pos { c } else { end - pos }))
        } else {
            b == a
        },
        Op::Home => b.moved_from(&a, 0, 0),
        Op::Up(k) => b.moved_from(&a, x, if y >= k { y - k } else { 0 }),
        Op::Down(k) => b.moved_from(&a, x, clamp(y + k, r)),
        Op::Right(k) => b.moved_from(&a, clamp(x + k, c), y),
        Op::Left(k) => b.moved_from(&a, if x >= k { x - k } else { 0 }, y),
        Op::Column(k) => if k >= 1 && c >= k {
            b.moved_from(&a, k - 1, y)
        } else {
            b == a
        },
        Op::Row(k) => if k >= 1 && r >= k {
            b.moved_from(&a, x, k - 1)
        } else {
            b == a
        },
        Op::Position(row, col) => if row > 0 && col > 0 {
            b.moved_from(&a, clamp(col - 1, c), clamp(row - 1, r))
        } else {
            b == a
        },
        Op::SavePosition => b.table.equiv(&Table { save_position: t.oob, ..t }) && b.save_terminal == a.save_terminal,
        Op::RestorePosition => b.moved_from(&a, clamp(t.save_position.0 as int, c), clamp(t.save_position.1 as int, r)),
        Op::ReverseIndex => if !in_region(t) {
            b == a
        } else if !t.ss_mod {
            b.scrolled_up_from(&a, y)
        } else {
            b.scrolled_down_from(&a, y)
        },
        Op::ScrollCursorUp(k) => if in_region(t) {
            scrolled_up_times(a, b, y, scroll_count(t, k))
        } else {
            b == a
        },
        Op::ScrollTopUp(k) => if in_region(t) {
            scrolled_up_times(a, b, t.region.0 as int, scroll_count(t, k))
        } else {
            b == a
        },
        Op::ScrollCursorDown(k) => if in_region(t) {
            scrolled_down_times(a, b, y, scroll_count(t, k))
        } else {
            b == a
        },
        Op::ScrollTopDown(k) => if in_region(t) {
            scrolled_down_times(a, b, t.region.0 as int, scroll_count(t, k))
        } else {
            b == a
        },
        Op::ResetStyle => b == Display { table: Table { collection: Character::spec_default(), ..t }, ..a },
        Op::Rendition(codes) => {
            &&& b.table.collection == sgr_all(t.collection, codes@)
            &&& b.table.equiv(&Table { collection: b.table.collection, ..t })
            &&& b.save_terminal == a.save_terminal
        },
        Op::Region(top, end) => {
            let e = clamp(end as int, r + 1);
            &&& b.table.region == (if 0 < top <= end && top - 1 < e {
                ((top - 1) as usize, e as usize)
            } else {
                t.region
            })
            &&& b.table.equiv(&Table { region: b.table.region, ..t })
            &&& b.save_terminal == a.save_terminal
        },
        Op::Bell => b == Display {
            table: Table { bell: if t.bell < usize::MAX { (t.bell + 1) as usize } else { t.bell }, ..t },
            ..a
        },
        Op::Enter => exists|mid: Display| #[trigger] mid.entered_from(&a) && b.moved_from(&mid, 0, mid.table.oob.1 as int),
        Op::Return => b.moved_from(&a, 0, y),
        Op::Tab => b.tabbed_from(&a),
        Op::Print(g) => b.printed_from(&a, g),
    }
}

/// The cursor's marking at the end of a chunk: its cell takes the cursor
/// style where the cursor is shown.
pub open spec fn marked(a: Display, b: Display) -> bool {
    if a.table.show_cursor {
        with_screen(a, b, restyle(a.table.screen@, a.table.pos as int, cursor_operate()))
    } else {
        b == a
    }
}

/// `b` is what interpreting the input `s` from offset `i` makes of `a`: one
/// recognised operation after the other, until the input ends (then the
/// cursor is marked) or a legacy form that stands alone ends it; a screen
/// without cells stays as it is.
pub open spec fn written(a: Display, b: Display, s: Seq<u8>, i: int) -> bool
    decreases s.len() - i,
{
    if !a.table.size.active() {
        b == a
    } else if i >= s.len() {
        marked(a, b)
    } else {
        exists|op: Op, next: int, last: bool, mid: Display|
            #![trigger parsed(s, i, op, next, last), applied(a, mid, op)]
            parsed(s, i, op, next, last) && i < next <= s.len() && applied(a, mid, op) && mid.wf() && (if last {
                b == mid
            } else {
                written(mid, b, s, next)
            })
    }
}

/// Like `written`, but the interpretation also stops right after leaving the
/// alternate screen: `r` is the offset reached and `restored` tells whether
/// it stopped there. The cursor is marked only when the input ends.
pub open spec fn written_upto(a: Display, b: Display, s: Seq<u8>, i: int, r: int, restored: bool) -> bool
    decreases s.len() - i,
{
    if !a.table.size.active() {
        b == a && r == s.len() && !restored
    } else if i >= s.len() {
        marked(a, b) && r == s.len() && !restored
    } else {
        exists|op: Op, next: int, last: bool, mid: Display|
            #![trigger parsed(s, i, op, next, last), applied(a, mid, op)]
            parsed(s, i, op, next, last) && i < next <= s.len() && applied(a, mid, op) && mid.wf() && (if last {
                b == mid && r == next && !restored
            } else if op is RestoreTerminal {
                b == mid && r == next && restored
            } else {
                written_upto(mid, b, s, next, r, restored)
            })
    }
}

impl Display {
    /// The `;`-separated numbers written from offset `i`, and the offset past
    /// what they take.
    pub fn catch_numbers(&self, buf: &[u8], i: usize) -> (r: (Vec<usize>, usize))
        requires
            i <= buf@.len(),
        ensures
            r.0@ == numbers_at(buf@, i as int).0,
            r.1 == numbers_at(buf@, i as int).1,
    {
        parse_numbers(buf, i)
    }

    /// Whether the cursor's row lies inside the scroll region.
    fn cursor_in_region(&self) -> (r: bool)
        ensures
            r == (self.table.region.0 <= self.table.oob.1 < self.table.region.1),
    {
        self.table.oob.1 >= self.table.region.0 && self.table.oob.1 < self.table.region.1
    }

    /// Scrolls the region up `count` times at row `base`; past the region's
    /// height every further scroll would change nothing, so the count is
    /// capped there.
    fn scroll_up_times(&mut self, base: usize, count: usize)
        requires
            old(self).wf(),
        ensures
            final(self).wf(),
            scrolled_up_times(*old(self), *final(self), base as int, scroll_count(old(self).table, count)),
    {
        let height = self.table.region.1 - self.table.region.0;
        let times = if count < height { count } else { height };
        let mut k: usize = 0;
        while k < times
            invariant
                self.wf(),
                k <= times,
                times == scroll_count(old(self).table, count),
                forall|z: Display|
                    scrolled_up_times(*self, z, base as int, (times - k) as nat) ==> scrolled_up_times(
                        *old(self),
                        z,
                        base as int,
                        times as nat,
                    ),
            decreases times - k,
        {
            let ghost cur = *self;
            self.scroll_up(base);
            proof {
                assert forall|z: Display|
                    scrolled_up_times(*self, z, base as int, (times - k - 1) as nat) implies scrolled_up_times(
                        *old(self),
                        z,
                        base as int,
                        times as nat,
                    ) by {
                    assert(scrolled_up_times(cur, z, base as int, (times - k) as nat));
                }
            }
            k = k + 1;
        }
        proof {
            assert(scrolled_up_times(*self, *self, base as int, 0));
        }
    }

    /// Scrolls the region down `count` times at row `base`, the count capped
    /// at the region's height as for scrolling up.
    fn scroll_down_times(&mut self, base: usize, count: usize)
        requires
            old(self).wf(),
        ensures
            final(self).wf(),
            scrolled_down_times(*old(self), *final(self), base as int, scroll_count(old(self).table, count)),
    {
        let height = self.table.region.1 - self.table.region.0;
        let times = if count < height { count } else { height };
        let mut k: usize = 0;
        while k < times
            invariant
                self.wf(),
                k <= times,
                times == scroll_count(old(self).table, count),
                forall|z: Display|
                    scrolled_down_times(*self, z, base as int, (times - k) as nat) ==> scrolled_down_times(
                        *old(self),
                        z,
                        base as int,
                        times as nat,
                    ),
            decreases times - k,
        {
            let ghost cur = *self;
            self.scroll_down(base);
            proof {
                assert forall|z: Display|
                    scrolled_down_times(*self, z, base as int, (times - k - 1) as nat) implies scrolled_down_times(
                        *old(self),
                        z,
                        base as int,
                        times as nat,
                    ) by {
                    assert(scrolled_down_times(cur, z, base as int, (times - k) as nat));
                }
            }
            k = k + 1;
        }
        proof {
            assert(scrolled_down_times(*self, *self, base as int, 0));
        }
    }

    /// Performs one operation; a screen without cells stays as it is.
    pub fn apply(&mut self, op: Op)
        requires
            old(self).wf(),
        ensures
            final(self).wf(),
            old(self).table.size.active() ==> applied(*old(self), *final(self), op),
            !old(self).table.size.active() ==> *final(self) == *old(self),
    {
        if !(self.table.size.ws_row > 0 && self.table.size.ws_col > 0) {
            return;
        }
        proof {
            lemma_cursor_inside(self.table);
        }
        match op {
            Op::Nop => {},
            Op::SaveTerminal => self.save_terminal(),
            Op::RestoreTerminal => self.restore_terminal(),
            Op::Mouse(k, on) => {
                if k == 0 {
                    self.table.mouse_handle.0 = on;
                } else if k == 1 {
                    self.table.mouse_handle.1 = on;
                } else if k == 2 {
                    self.table.mouse_handle.2 = on;
                } else {
                    self.table.mouse_handle.3 = on;
                }
            },
            Op::LineWrap(on) => {
                self.table.line_wrap = on;
            },
            Op::SoftShift(on) => {
                self.table.ss_mod = on;
            },
            Op::ShowCursor(on) => {
                self.table.show_cursor = on;
                if on {
                    self.color_cursor();
                } else {
                    self.clear_cursor();
                }
            },
            Op::EraseRightLine => {
                let pos = self.table.pos;
                self.erase_right_line(pos);
            },
            Op::EraseLeftLine => {
                let pos = self.table.pos;
                self.erase_left_line(pos);
            },
            Op::EraseLine => self.erase_line(1),
            Op::EraseDown => self.erase_down(),
            Op::EraseUp => self.erase_up(),
            Op::Clear => self.clear(),
            Op::EraseChars(k) => self.erase_chars(k),
            Op::InsertChars(k) => self.insert_chars(k),
            Op::InsertLine => {
                if self.cursor_in_region() {
                    proof {
                        let t = self.table;
                        lemma_row_offsets(t.oob.1 + 1, t.region.1 as int, t.cols());
                        lemma_row_offsets(t.oob.1 as int, t.region.1 as int, t.cols());
                        assert(1 * t.cols() == t.cols());
                    }
                    self.insert_empty_line(1);
                }
            },
            Op::Home => self.goto_home(),
            Op::Up(k) => self.goto_up(k),
            Op::Down(k) => self.goto_down(k),
            Op::Right(k) => self.goto_right(k),
            Op::Left(k) => self.goto_left(k),
            Op::Column(k) => {
                if k >= 1 && self.table.size.get_col() >= k {
                    let y = self.table.oob.1;
                    self.goto_coord(k - 1, y);
                }
            },
            Op::Row(k) => {
                if k >= 1 && self.table.size.get_row() >= k {
                    let x = self.table.oob.0;
                    self.goto_coord(x, k - 1);
                }
            },
            Op::Position(r, c) => {
                if r > 0 && c > 0 {
                    self.goto_coord(c - 1, r - 1);
                }
            },
            Op::SavePosition => self.save_position(),
            Op::RestorePosition => self.restore_position(),
            Op::ReverseIndex => {
                if self.cursor_in_region() {
                    let y = self.table.oob.1;
                    if !self.table.ss_mod {
                        self.scroll_up(y);
                    } else {
                        self.scroll_down(y);
                    }
                }
            },
            Op::ScrollCursorUp(k) => {
                if self.cursor_in_region() {
                    let y = self.table.oob.1;
                    self.scroll_up_times(y, k);
                }
            },
            Op::ScrollTopUp(k) => {
                if self.cursor_in_region() {
                    let top = self.table.region.0;
                    self.scroll_up_times(top, k);
                }
            },
            Op::ScrollCursorDown(k) => {
                if self.cursor_in_region() {
                    let y = self.table.oob.1;
                    self.scroll_down_times(y, k);
                }
            },
            Op::ScrollTopDown(k) => {
                if self.cursor_in_region() {
                    let top = self.table.region.0;
                    self.scroll_down_times(top, k);
                }
            },
            Op::ResetStyle => {
                self.table.collection.clear();
            },
            Op::Rendition(codes) => self.set_rendition(&codes),
            Op::Region(a, b) => self.tricky_resize(a, b),
            Op::Bell => {
                self.table.bell = self.table.bell.saturating_add(1);
            },
            Op::Enter => {
                self.print_enter();
                let ghost mid = *self;
                assert(mid.table.size == old(self).table.size);
                self.goto_begin_row();
                assert(self.moved_from(&mid, 0, mid.table.oob.1 as int));
            },
            Op::Return => self.goto_begin_row(),
            Op::Tab => self.print_tab(),
            Op::Print(c) => self.print_char(c),
        }
    }

    /// Interprets a chunk as `write` does, but stops right after a sequence
    /// that leaves the alternate screen, so that the caller can bring the
    /// restored screen to the terminal's geometry before the rest is drawn.
    /// Returns the offset reached and whether it stopped there.
    pub fn write_through_restore(&mut self, buf: &[u8]) -> (r: (usize, bool))
        requires
            old(self).wf(),
        ensures
            final(self).wf(),
            r.0 <= buf@.len(),
            written_upto(*old(self), *final(self), buf@, 0, r.0 as int, r.1),
    {
        if !(self.table.size.ws_row > 0 && self.table.size.ws_col > 0) {
            return (buf.len(), false);
        }
        let mut i: usize = 0;
        let mut last = false;
        let mut restored = false;
        while i < buf.len() && !last && !restored && self.table.size.ws_row > 0 && self.table.size.ws_col > 0
            invariant
                self.wf(),
                i <= buf@.len(),
                !last && !restored ==> forall|z: Display, k: int, f: bool|
                    written_upto(*self, z, buf@, i as int, k, f) ==> written_upto(*old(self), z, buf@, 0, k, f),
                last ==> written_upto(*old(self), *self, buf@, 0, i as int, false),
                restored ==> !last && written_upto(*old(self), *self, buf@, 0, i as int, true),
            decreases buf@.len() - i,
        {
            let ghost cur = *self;
            let step = parse_op(buf, i);
            let is_restore = match step.op {
                Op::RestoreTerminal => true,
                _ => false,
            };
            self.apply(step.op);
            proof {
                if step.last {
                    assert(written_upto(cur, *self, buf@, i as int, step.next as int, false));
                } else if is_restore {
                    assert(written_upto(cur, *self, buf@, i as int, step.next as int, true));
                } else {
                    assert forall|z: Display, k: int, f: bool|
                        written_upto(*self, z, buf@, step.next as int, k, f) implies written_upto(
                        *old(self),
                        z,
                        buf@,
                        0,
                        k,
                        f,
                    ) by {
                        assert(written_upto(cur, z, buf@, i as int, k, f));
                    }
                }
            }
            i = step.next;
            last = step.last;
            restored = !last && is_restore;
        }
        if last || restored {
            return (i, restored);
        }
        if self.table.size.ws_row > 0 && self.table.size.ws_col > 0 && self.table.show_cursor {
            let ghost cur = *self;
            self.color_cursor();
            proof {
                assert(written_upto(cur, *self, buf@, i as int, buf@.len() as int, false));
            }
        } else {
            proof {
                assert(written_upto(*self, *self, buf@, i as int, buf@.len() as int, false));
            }
        }
        (buf.len(), false)
    }

    /// Interprets a chunk of output: every control sequence and glyph in it,
    /// in order; then, if the cursor is shown, marks the cursor's cell. A
    /// screen without cells takes the bytes and changes nothing. Returns the
    /// number of bytes taken, which is all of them.
    ///
    /// Chunks are independent: a glyph whose bytes are split between two
    /// chunks is dropped, its lead byte skipped, not held for the next chunk.
    pub fn write(&mut self, buf: &[u8]) -> (r: usize)
        requires
            old(self).wf(),
        ensures
            final(self).wf(),
            r == buf@.len(),
            written(*old(self), *final(self), buf@, 0),
    {
        if !(self.table.size.ws_row > 0 && self.table.size.ws_col > 0) {
            return buf.len();
        }
        let mut i: usize = 0;
        let mut last = false;
        while i < buf.len() && !last && self.table.size.ws_row > 0 && self.table.size.ws_col > 0
            invariant
                self.wf(),
                i <= buf@.len(),
                !last ==> forall|z: Display|
                    written(*self, z, buf@, i as int) ==> written(*old(self), z, buf@, 0),
                last ==> written(*old(self), *self, buf@, 0),
            decreases buf@.len() - i,
        {
            let ghost cur = *self;
            let step = parse_op(buf, i);
            let ghost op = step.op;
            self.apply(step.op);
            proof {
                if step.last {
                    assert(written(cur, *self, buf@, i as int));
                } else {
                    assert forall|z: Display| written(*self, z, buf@, step.next as int) implies written(
                        *old(self),
                        z,
                        buf@,
                        0,
                    ) by {
                        assert(written(cur, z, buf@, i as int));
                    }
                }
            }
            i = step.next;
            last = step.last;
        }
        if !last && self.table.size.ws_row > 0 && self.table.size.ws_col > 0 && self.table.show_cursor {
            let ghost cur = *self;
            self.color_cursor();
            proof {
                assert(written(cur, *self, buf@, i as int));
            }
        } else if !last {
            proof {
                assert(written(*self, *self, buf@, i as int));
            }
        }
        buf.len()
    }
}

} // verus!
