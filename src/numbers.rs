use vstd::prelude::*;

verus! {

pub open spec fn is_digit(b: u8) -> bool {
    0x30 <= b <= 0x39
}

/// The end of the run of decimal digits that starts at `i`.
pub open spec fn digits_end(s: Seq<u8>, i: int) -> int
    decreases s.len() - i,
{
    if 0 <= i < s.len() && is_digit(s[i]) {
        digits_end(s, i + 1)
    } else {
        i
    }
}

/// The value of a string of decimal digits.
pub open spec fn decimal(s: Seq<u8>) -> nat
    decreases s.len(),
{
    if s.len() == 0 {
        0
    } else {
        decimal(s.drop_last()) * 10 + (s.last() - 0x30) as nat
    }
}

/// The number written at `i` and the offset past it: none where no digit
/// stands at `i` or the value does not fit in `usize`.
pub open spec fn number_at(s: Seq<u8>, i: int) -> Option<(usize, int)> {
    let j = digits_end(s, i);
    if j > i && decimal(s.subrange(i, j)) <= usize::MAX {
        Some((decimal(s.subrange(i, j)) as usize, j))
    } else {
        None
    }
}

/// The `;`-separated numbers written from `i`, and the offset past what
/// they take: a `;` is taken only where a number follows it or stands before
/// it; the list stops at the first place where no number stands.
pub open spec fn numbers_at(s: Seq<u8>, i: int) -> (Seq<usize>, int)
    decreases s.len() - i,
{
    match number_at(s, i) {
        Some((n, j)) => {
            if i < j < s.len() && s[j] == 0x3B {
                let rest = numbers_at(s, j + 1);
                (seq![n].add(rest.0), rest.1)
            } else {
                (seq![n], j)
            }
        },
        None => (Seq::empty(), i),
    }
}

proof fn lemma_digits_end(s: Seq<u8>, i: int)
    requires
        0 <= i <= s.len(),
    ensures
        i <= digits_end(s, i) <= s.len(),
        forall|k: int| i <= k < digits_end(s, i) ==> is_digit(#[trigger] s[k]),
        digits_end(s, i) < s.len() ==> !is_digit(s[digits_end(s, i)]),
    decreases s.len() - i,
{
    if i < s.len() && is_digit(s[i]) {
        lemma_digits_end(s, i + 1);
    }
}

/// Reads the number written at `i`.
pub fn parse_number(buf: &[u8], i: usize) -> (r: Option<(usize, usize)>)
    requires
        i <= buf@.len(),
    ensures
        r matches Some((n, j)) ==> number_at(buf@, i as int) == Some((n, j as int)),
        r is None ==> number_at(buf@, i as int) is None,
{
    let mut j: usize = i;
    let mut v: usize = 0;
    let mut over = false;
    proof {
        lemma_digits_end(buf@, i as int);
        assert(buf@.subrange(i as int, i as int) =~= Seq::<u8>::empty());
    }
    while j < buf.len() && 0x30 <= buf[j] && buf[j] <= 0x39
        invariant
            i <= j <= buf@.len(),
            digits_end(buf@, j as int) == digits_end(buf@, i as int),
            !over ==> v == decimal(buf@.subrange(i as int, j as int)),
            over ==> decimal(buf@.subrange(i as int, j as int)) > usize::MAX,
        decreases buf@.len() - j,
    {
        let d = (buf[j] - 0x30) as usize;
        proof {
            let t = buf@.subrange(i as int, j + 1);
            assert(t.drop_last() =~= buf@.subrange(i as int, j as int));
        }
        if !over {
            if v > (usize::MAX - d) / 10 {
                over = true;
            } else {
                v = v * 10 + d;
            }
        }
        j = j + 1;
    }
    if j > i && !over {
        Some((v, j))
    } else {
        None
    }
}

/// Reads the `;`-separated numbers written from `i`.
pub fn parse_numbers(buf: &[u8], i: usize) -> (r: (Vec<usize>, usize))
    requires
        i <= buf@.len(),
    ensures
        r.0@ == numbers_at(buf@, i as int).0,
        r.1 == numbers_at(buf@, i as int).1,
        i <= r.1 <= buf@.len(),
{
    let mut acc: Vec<usize> = Vec::new();
    let mut k: usize = i;
    loop
        invariant
            i <= k <= buf@.len(),
            numbers_at(buf@, i as int) == (acc@.add(numbers_at(buf@, k as int).0), numbers_at(buf@, k as int).1),
        decreases buf@.len() - k,
    {
        proof {
            lemma_digits_end(buf@, k as int);
        }
        match parse_number(buf, k) {
            Some((n, j)) => {
                acc.push(n);
                if j < buf.len() && buf[j] == 0x3B {
                    proof {
                        let rest = numbers_at(buf@, j + 1);
                        assert(seq![n].add(rest.0) == seq![n] + rest.0);
                        assert(acc@.add(rest.0) =~= acc@.drop_last().add(seq![n].add(rest.0)));
                    }
                    k = j + 1;
                } else {
                    proof {
                        assert(acc@ =~= acc@.drop_last().add(seq![n]));
                    }
                    return (acc, j);
                }
            },
            None => {
                proof {
                    assert(acc@.add(Seq::<usize>::empty()) =~= acc@);
                }
                return (acc, k);
            },
        }
    }
}

} // verus!
