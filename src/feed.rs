use vstd::prelude::*;
use crate::display::Display;
use crate::glyph::lead_len;
use crate::interp::written;

verus! {

/// Where the input is cut when a glyph at its end lacks bytes: at the lead
/// byte of that glyph, if one of the last three bytes announces more bytes
/// than follow it; else at the end.
pub open spec fn cut_at(s: Seq<u8>) -> int {
    let n = s.len() as int;
    if n >= 1 && lead_len(s[n - 1]) >= 2 {
        n - 1
    } else if n >= 2 && lead_len(s[n - 2]) >= 3 {
        n - 2
    } else if n >= 3 && lead_len(s[n - 3]) >= 4 {
        n - 3
    } else {
        n
    }
}

/// Feeds chunks of output to a screen, with a choice for a glyph whose
/// bytes are split between two chunks: hold its bytes for the next chunk,
/// or (as `Display::write` alone does) drop it.
pub struct Feed {
    pub hold_split: bool,
    pub held: Vec<u8>,
}

impl Feed {
    pub fn new(hold_split: bool) -> (r: Feed)
        ensures
            r.hold_split == hold_split,
            r.held@.len() == 0,
    {
        Feed { hold_split, held: Vec::new() }
    }

    /// The bytes held back from the last chunk.
    pub fn held(&self) -> (r: &Vec<u8>)
        ensures
            r@ == self.held@,
    {
        &self.held
    }

    /// Interprets the held bytes and then `chunk`; when holding, the bytes of
    /// a glyph cut short at the end are kept back for the next chunk instead.
    /// Returns the length of `chunk`.
    pub fn write(&mut self, display: &mut Display, chunk: &[u8]) -> (r: usize)
        requires
            old(display).wf(),
        ensures
            r == chunk@.len(),
            final(display).wf(),
            final(self).hold_split == old(self).hold_split,
            ({
                let input = old(self).held@ + chunk@;
                let cut = if old(self).hold_split { cut_at(input) } else { input.len() as int };
                &&& written(*old(display), *final(display), input.subrange(0, cut), 0)
                &&& final(self).held@ == input.subrange(cut, input.len() as int)
            }),
    {
        let input = joined(&self.held, chunk);
        let cut = if self.hold_split { cut_point(&input) } else { input.len() };
        let (now, later) = split_at(&input, cut);
        display.write(now.as_slice());
        self.held = later;
        chunk.len()
    }
}

/// `a` followed by `b`.
fn joined(a: &Vec<u8>, b: &[u8]) -> (r: Vec<u8>)
    ensures
        r@ == a@ + b@,
{
    let mut r: Vec<u8> = Vec::new();
    let mut k: usize = 0;
    while k < a.len()
        invariant
            k <= a@.len(),
            r@ == a@.subrange(0, k as int),
        decreases a@.len() - k,
    {
        proof {
            assert(a@.subrange(0, k + 1) == a@.subrange(0, k as int).push(a@[k as int]));
        }
        r.push(a[k]);
        k = k + 1;
    }
    let mut k: usize = 0;
    proof {
        assert(a@.subrange(0, a@.len() as int) == a@);
        assert(b@.subrange(0, 0) =~= Seq::<u8>::empty());
        assert(a@ + b@.subrange(0, 0) =~= a@);
    }
    while k < b.len()
        invariant
            k <= b@.len(),
            r@ == a@ + b@.subrange(0, k as int),
        decreases b@.len() - k,
    {
        proof {
            assert(b@.subrange(0, k + 1) == b@.subrange(0, k as int).push(b@[k as int]));
            assert(a@ + b@.subrange(0, k + 1) =~= (a@ + b@.subrange(0, k as int)).push(b@[k as int]));
        }
        r.push(b[k]);
        k = k + 1;
    }
    proof {
        assert(b@.subrange(0, b@.len() as int) == b@);
    }
    r
}

/// Where `s` is cut to hold back a glyph that lacks bytes.
fn cut_point(s: &Vec<u8>) -> (r: usize)
    ensures
        r == cut_at(s@),
{
    let n = s.len();
    if n >= 1 && lead_len_of(s[n - 1]) >= 2 {
        n - 1
    } else if n >= 2 && lead_len_of(s[n - 2]) >= 3 {
        n - 2
    } else if n >= 3 && lead_len_of(s[n - 3]) >= 4 {
        n - 3
    } else {
        n
    }
}

/// The bytes of `s` before `cut`, and those from `cut` on.
fn split_at(s: &Vec<u8>, cut: usize) -> (r: (Vec<u8>, Vec<u8>))
    requires
        cut <= s@.len(),
    ensures
        r.0@ == s@.subrange(0, cut as int),
        r.1@ == s@.subrange(cut as int, s@.len() as int),
{
    let mut now: Vec<u8> = Vec::new();
    let mut later: Vec<u8> = Vec::new();
    let n = s.len();
    let mut k: usize = 0;
    while k < n
        invariant
            n == s@.len(),
            cut <= n,
            k <= n,
            now@ == s@.subrange(0, if k < cut { k as int } else { cut as int }),
            later@ == s@.subrange(cut as int, if k < cut { cut as int } else { k as int }),
        decreases n - k,
    {
        if k < cut {
            proof {
                assert(s@.subrange(0, k + 1) == s@.subrange(0, k as int).push(s@[k as int]));
            }
            now.push(s[k]);
        } else {
            proof {
                assert(s@.subrange(cut as int, k + 1) == s@.subrange(cut as int, k as int).push(s@[k as int]));
            }
            later.push(s[k]);
        }
        k = k + 1;
    }
    (now, later)
}

/// The number of bytes that a lead byte announces.
fn lead_len_of(b: u8) -> (r: u8)
    ensures
        r as int == lead_len(b),
{
    if b < 0x80 {
        1
    } else if 0xF0 <= b && b <= 0xF7 {
        4
    } else if 0xE0 <= b && b <= 0xEF {
        3
    } else if 0xC0 <= b && b <= 0xDF {
        2
    } else {
        0
    }
}

} // verus!
