use vstd::prelude::*;

verus! {

/// The number of bytes that a UTF-8 lead byte announces; 0 for a byte that
/// cannot lead.
pub open spec fn lead_len(b: u8) -> int {
    if b < 0x80 {
        1
    } else if 0xF0 <= b <= 0xF7 {
        4
    } else if 0xE0 <= b <= 0xEF {
        3
    } else if 0xC0 <= b <= 0xDF {
        2
    } else {
        0
    }
}

/// The value that the `n` bytes at `i` spell: the payload bits of the lead
/// byte, then six bits from each following byte.
pub open spec fn code_point(s: Seq<u8>, i: int, n: int) -> u32 {
    if n == 4 {
        ((s[i] % 8) as int * 0x40000 + (s[i + 1] % 64) as int * 0x1000 + (s[i + 2] % 64) as int * 0x40
            + (s[i + 3] % 64) as int) as u32
    } else if n == 3 {
        ((s[i] % 16) as int * 0x1000 + (s[i + 1] % 64) as int * 0x40 + (s[i + 2] % 64) as int) as u32
    } else if n == 2 {
        ((s[i] % 32) as int * 0x40 + (s[i + 1] % 64) as int) as u32
    } else {
        s[i] as u32
    }
}

/// Whether `b` can follow a lead byte (`10xxxxxx`).
pub open spec fn is_cont(b: u8) -> bool {
    0x80 <= b <= 0xBF
}

/// Whether the `n - 1` bytes after the lead byte at `i` are all
/// continuation bytes.
pub open spec fn continued(s: Seq<u8>, i: int, n: int) -> bool {
    &&& (n < 2 || is_cont(s[i + 1]))
    &&& (n < 3 || is_cont(s[i + 2]))
    &&& (n < 4 || is_cont(s[i + 3]))
}

/// The value that a well-formed sequence of `n` bytes at `i` stands for:
/// its code point, or the replacement character where a shorter sequence
/// would have spelled it (an overlong form).
pub open spec fn decoded(s: Seq<u8>, i: int, n: int) -> u32 {
    let v = code_point(s, i, n);
    if n == 1 || (n == 2 && v >= 0x80) || (n == 3 && v >= 0x800) || (n == 4 && v >= 0x10000) {
        v
    } else {
        0xFFFD
    }
}

/// Whether `v` is a Unicode scalar value.
pub open spec fn is_scalar(v: u32) -> bool {
    v < 0xD800 || (0xE000 <= v && v <= 0x10FFFF)
}

/// The character printed for the value `v`: the NUL byte prints as a space,
/// a value that is no character as the replacement character.
pub open spec fn printed(v: u32) -> u32 {
    if v == 0 {
        0x20
    } else if is_scalar(v) {
        v
    } else {
        0xFFFD
    }
}

/// Relies on `char::from_u32`: `Some` exactly for the Unicode scalar values,
/// holding the character of that value.
#[verifier::external_body]
fn char_from_u32(v: u32) -> (r: Option<char>)
    ensures
        r is Some <==> is_scalar(v),
        r matches Some(c) ==> c as u32 == v,
{
    char::from_u32(v)
}

/// The character printed for the value `v`.
pub fn printed_char(v: u32) -> (c: char)
    ensures
        c as u32 == printed(v),
{
    if v == 0 {
        ' '
    } else {
        match char_from_u32(v) {
            Some(c) => c,
            None => '\u{FFFD}',
        }
    }
}

fn is_cont_byte(b: u8) -> (r: bool)
    ensures
        r == is_cont(b),
{
    0x80 <= b && b <= 0xBF
}

/// Decodes the glyph that starts at `i`: the character and the offset past
/// its bytes. A byte that cannot lead, a lead byte whose sequence is cut
/// short by the end of the input, or one not followed by continuation bytes,
/// gives no character and is skipped alone; the bytes after it are read
/// afresh.
pub fn decode_glyph(buf: &[u8], i: usize) -> (r: (Option<char>, usize))
    requires
        i < buf@.len(),
    ensures
        ({
            let n = lead_len(buf@[i as int]);
            if n > 0 && i + n <= buf@.len() && continued(buf@, i as int, n) {
                &&& r.1 == i + n
                &&& r.0 matches Some(c) && c as u32 == printed(decoded(buf@, i as int, n))
            } else {
                r.1 == i + 1 && r.0 is None
            }
        }),
{
    let b0 = buf[i];
    let len = buf.len();
    if b0 < 0x80 {
        (Some(printed_char(b0 as u32)), i + 1)
    } else if 0xF0 <= b0 && b0 <= 0xF7 {
        if len - i >= 4 && is_cont_byte(buf[i + 1]) && is_cont_byte(buf[i + 2]) && is_cont_byte(buf[i + 3]) {
            let v = (b0 % 8) as u32 * 0x40000 + (buf[i + 1] % 64) as u32 * 0x1000 + (buf[i + 2] % 64) as u32 * 0x40
                + (buf[i + 3] % 64) as u32;
            let w = if v >= 0x10000 { v } else { 0xFFFD };
            (Some(printed_char(w)), i + 4)
        } else {
            (None, i + 1)
        }
    } else if 0xE0 <= b0 && b0 <= 0xEF {
        if len - i >= 3 && is_cont_byte(buf[i + 1]) && is_cont_byte(buf[i + 2]) {
            let v = (b0 % 16) as u32 * 0x1000 + (buf[i + 1] % 64) as u32 * 0x40 + (buf[i + 2] % 64) as u32;
            let w = if v >= 0x800 { v } else { 0xFFFD };
            (Some(printed_char(w)), i + 3)
        } else {
            (None, i + 1)
        }
    } else if 0xC0 <= b0 && b0 <= 0xDF {
        if len - i >= 2 && is_cont_byte(buf[i + 1]) {
            let v = (b0 % 32) as u32 * 0x40 + (buf[i + 1] % 64) as u32;
            let w = if v >= 0x80 { v } else { 0xFFFD };
            (Some(printed_char(w)), i + 2)
        } else {
            (None, i + 1)
        }
    } else {
        (None, i + 1)
    }
}

} // verus!
