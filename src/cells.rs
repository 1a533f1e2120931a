use vstd::prelude::*;
use crate::character::Character;

verus! {

/// `n` copies of one cell.
pub open spec fn copies(c: Character, n: int) -> Seq<Character> {
    Seq::new(n as nat, |_i: int| c)
}

/// `s` with the cells of `[from, to)` replaced by `c` (indices past the end
/// are ignored).
pub open spec fn fill(s: Seq<Character>, from: int, to: int, c: Character) -> Seq<Character> {
    Seq::new(s.len(), |i: int| if from <= i < to { c } else { s[i] })
}

/// Inside the window `[at, end)`, `k` copies of `c` enter at `at` and the last
/// `k` cells of the window drop out; the rest of `s` stays.
pub open spec fn rotate_in(s: Seq<Character>, at: int, end: int, c: Character, k: int) -> Seq<Character> {
    s.subrange(0, at) + copies(c, k) + s.subrange(at, end - k) + s.subrange(end, s.len() as int)
}

/// Inside the window `[at, end)`, the first `k` cells drop out and `k` copies
/// of `c` enter at the end of the window; the rest of `s` stays.
pub open spec fn rotate_out(s: Seq<Character>, at: int, end: int, c: Character, k: int) -> Seq<Character> {
    s.subrange(0, at) + s.subrange(at + k, end) + copies(c, k) + s.subrange(end, s.len() as int)
}

/// Appends `src[from..to]` to `dst`.
pub fn extend_range(dst: &mut Vec<Character>, src: &Vec<Character>, from: usize, to: usize)
    requires
        from <= to <= src@.len(),
    ensures
        final(dst)@ == old(dst)@ + src@.subrange(from as int, to as int),
{
    let mut i: usize = from;
    while i < to
        invariant
            from <= i <= to <= src@.len(),
            dst@ == old(dst)@ + src@.subrange(from as int, i as int),
        decreases to - i,
    {
        dst.push(src[i]);
        proof {
            assert(src@.subrange(from as int, i + 1) == src@.subrange(from as int, i as int).push(src@[i as int]));
        }
        i = i + 1;
    }
}

/// Appends `n` copies of `c` to `dst`.
pub fn push_copies(dst: &mut Vec<Character>, c: Character, n: usize)
    ensures
        final(dst)@ == old(dst)@ + copies(c, n as int),
{
    let mut i: usize = 0;
    while i < n
        invariant
            i <= n,
            dst@ == old(dst)@ + copies(c, i as int),
        decreases n - i,
    {
        dst.push(c);
        proof {
            assert(copies(c, i + 1) == copies(c, i as int).push(c));
        }
        i = i + 1;
    }
}

/// A vector of `n` copies of `c`.
pub fn new_copies(c: Character, n: usize) -> (r: Vec<Character>)
    ensures
        r@ == copies(c, n as int),
{
    let mut v: Vec<Character> = Vec::new();
    push_copies(&mut v, c, n);
    proof {
        assert(Seq::<Character>::empty() + copies(c, n as int) == copies(c, n as int));
    }
    v
}

/// Replaces the cells of `[from, to)` by `c`, clipping the range to the vector.
pub fn fill_range(v: &mut Vec<Character>, from: usize, to: usize, c: Character)
    ensures
        final(v)@ == fill(old(v)@, from as int, to as int, c),
{
    let end: usize = if to < v.len() { to } else { v.len() };
    let mut i: usize = from;
    while i < end
        invariant
            end <= v@.len(),
            end == (if to < v@.len() { to as int } else { v@.len() as int }),
            v@.len() == old(v)@.len(),
            from <= i,
            i <= end || i == from,
            forall|j: int| 0 <= j < v@.len() ==> #[trigger] v@[j] == (if from <= j < i { c } else { old(v)@[j] }),
        decreases end - i,
    {
        v.set(i, c);
        i = i + 1;
    }
    proof {
        assert(v@ =~= fill(old(v)@, from as int, to as int, c));
    }
}

/// The exec form of `rotate_in`.
pub fn rotate_in_vec(v: &mut Vec<Character>, at: usize, end: usize, c: Character, k: usize)
    requires
        at <= end <= old(v)@.len(),
        k <= end - at,
    ensures
        final(v)@ == rotate_in(old(v)@, at as int, end as int, c, k as int),
{
    let mut out: Vec<Character> = Vec::new();
    let len = v.len();
    extend_range(&mut out, v, 0, at);
    push_copies(&mut out, c, k);
    extend_range(&mut out, v, at, end - k);
    extend_range(&mut out, v, end, len);
    *v = out;
}

/// The exec form of `rotate_out`.
pub fn rotate_out_vec(v: &mut Vec<Character>, at: usize, end: usize, c: Character, k: usize)
    requires
        at <= end <= old(v)@.len(),
        k <= end - at,
    ensures
        final(v)@ == rotate_out(old(v)@, at as int, end as int, c, k as int),
{
    let mut out: Vec<Character> = Vec::new();
    let len = v.len();
    extend_range(&mut out, v, 0, at);
    extend_range(&mut out, v, at + k, end);
    push_copies(&mut out, c, k);
    extend_range(&mut out, v, end, len);
    *v = out;
}

} // verus!
