//! Scanning text: counting occurrences of a pattern and measuring lines.

use vstd::prelude::*;
use crate::text::occurs_at;

verus! {

/// Occurrences of `n` in `h` from index `i` on, counted left to right
/// without overlap (`str::matches(..).count()` for a non-empty pattern).
pub open spec fn count_from(h: Seq<char>, n: Seq<char>, i: int) -> nat
    decreases h.len() - i,
{
    if n.len() == 0 || i < 0 || i + n.len() > h.len() {
        0
    } else if occurs_at(h, n, i) {
        1 + count_from(h, n, i + n.len())
    } else {
        count_from(h, n, i + 1)
    }
}

/// Occurrences of `n` in `h`, left to right, without overlap.
pub open spec fn count_matches(h: Seq<char>, n: Seq<char>) -> nat {
    count_from(h, n, 0)
}

pub proof fn lemma_count_from_bound(h: Seq<char>, n: Seq<char>, i: int)
    requires
        0 <= i,
    ensures
        count_from(h, n, i) <= if i <= h.len() { h.len() - i } else { 0 },
    decreases h.len() - i,
{
    if n.len() == 0 || i + n.len() > h.len() {
    } else if occurs_at(h, n, i) {
        lemma_count_from_bound(h, n, i + n.len());
    } else {
        lemma_count_from_bound(h, n, i + 1);
    }
}

/// The number of non-overlapping occurrences of `n` in `h`.
pub fn count_occurrences(h: &Vec<char>, n: &Vec<char>) -> (c: usize)
    requires
        n@.len() > 0,
    ensures
        c == count_matches(h@, n@),
{
    let hl = h.len();
    let nl = n.len();
    let mut i: usize = 0;
    let mut c: usize = 0;
    proof {
        lemma_count_from_bound(h@, n@, 0);
    }
    while i < hl && nl <= hl - i
        invariant
            hl == h@.len(),
            nl == n@.len(),
            nl > 0,
            i <= hl,
            c <= i,
            c + count_from(h@, n@, i as int) == count_matches(h@, n@),
        decreases hl - i,
    {
        if crate::text::matches_at(h, n, i) {
            c = c + 1;
            i = i + nl;
        } else {
            i = i + 1;
        }
    }
    c
}

/// The number of non-overlapping occurrences of `n` in `h`.
pub fn count_str(h: &Vec<char>, n: &str) -> (c: usize)
    requires
        n@.len() > 0,
    ensures
        c == count_matches(h@, n@),
{
    let nv = crate::text::chars_of(n);
    count_occurrences(h, &nv)
}

/// The bytes UTF-8 takes for `c`.
pub open spec fn char_width(c: char) -> nat {
    if (c as u32) < 0x80 {
        1
    } else if (c as u32) < 0x800 {
        2
    } else if (c as u32) < 0x10000 {
        3
    } else {
        4
    }
}

/// The bytes UTF-8 takes for `s`.
pub open spec fn utf8_size(s: Seq<char>) -> nat
    decreases s.len(),
{
    if s.len() == 0 {
        0
    } else {
        utf8_size(s.drop_last()) + char_width(s.last())
    }
}

pub proof fn lemma_utf8_size_prefix(s: Seq<char>, j: int)
    requires
        0 <= j <= s.len(),
    ensures
        utf8_size(s.take(j)) <= utf8_size(s),
    decreases s.len(),
{
    if j < s.len() {
        assert(s.drop_last().take(j) =~= s.take(j));
        lemma_utf8_size_prefix(s.drop_last(), j);
    } else {
        assert(s.take(j) =~= s);
    }
}

/// A line without the carriage return of a `\r\n` ending.
pub open spec fn strip_cr(line: Seq<char>) -> Seq<char> {
    if line.len() > 0 && line.last() == '\r' { line.drop_last() } else { line }
}

/// The lines of `s` from index `i` on, `cur` being the text of the current
/// line read so far: lines end at `\n` (a `\r` before it is dropped); a
/// last line without `\n` counts when it is not empty (`str::lines`).
pub open spec fn lines_from(s: Seq<char>, i: int, cur: Seq<char>) -> Seq<Seq<char>>
    decreases s.len() - i,
{
    if i < 0 || i >= s.len() {
        if cur.len() > 0 { seq![cur] } else { Seq::empty() }
    } else if s[i] == '\n' {
        seq![strip_cr(cur)] + lines_from(s, i + 1, Seq::empty())
    } else {
        lines_from(s, i + 1, cur.push(s[i]))
    }
}

/// The lines of `s`, as `str::lines` yields them.
pub open spec fn lines_of(s: Seq<char>) -> Seq<Seq<char>> {
    lines_from(s, 0, Seq::empty())
}

fn width(c: char) -> (w: usize)
    ensures
        w == char_width(c),
{
    let u = c as u32;
    if u < 0x80 {
        1
    } else if u < 0x800 {
        2
    } else if u < 0x10000 {
        3
    } else {
        4
    }
}

/// The byte length of each line of `s`.
pub fn line_sizes(s: &Vec<char>) -> (sizes: Vec<usize>)
    requires
        utf8_size(s@) <= usize::MAX,
    ensures
        sizes@.len() == lines_of(s@).len(),
        forall|k: int| 0 <= k < sizes@.len() ==> #[trigger] sizes@[k] == utf8_size(lines_of(s@)[k]),
{
    let n = s.len();
    let mut sizes: Vec<usize> = Vec::new();
    let ghost mut done: Seq<Seq<char>> = Seq::empty();
    let ghost mut cur: Seq<char> = Seq::empty();
    let mut cur_size: usize = 0;
    let mut last_cr = false;
    let mut i: usize = 0;
    while i < n
        invariant
            n == s@.len(),
            i <= n,
            utf8_size(s@) <= usize::MAX,
            lines_of(s@) == done + lines_from(s@, i as int, cur),
            sizes@.len() == done.len(),
            forall|k: int| 0 <= k < done.len() ==> #[trigger] sizes@[k] == utf8_size(done[k]),
            cur_size == utf8_size(cur),
            utf8_size(cur) <= utf8_size(s@.take(i as int)),
            last_cr == (cur.len() > 0 && cur.last() == '\r'),
        decreases n - i,
    {
        let c = s[i];
        proof {
            lemma_utf8_size_prefix(s@, i + 1);
            assert(s@.take(i + 1).drop_last() =~= s@.take(i as int));
        }
        if c == '\n' {
            let line_size = if last_cr { cur_size - 1 } else { cur_size };
            proof {
                if last_cr {
                    assert(utf8_size(cur) == utf8_size(cur.drop_last()) + char_width('\r'));
                }
                assert(lines_from(s@, i as int, cur) == seq![strip_cr(cur)] + lines_from(s@, i + 1, Seq::empty()));
                assert(done + lines_from(s@, i as int, cur) =~= done.push(strip_cr(cur)) + lines_from(s@, i + 1, Seq::empty()));
                done = done.push(strip_cr(cur));
                cur = Seq::empty();
            }
            sizes.push(line_size);
            cur_size = 0;
            last_cr = false;
        } else {
            let w = width(c);
            proof {
                assert(cur.push(c).drop_last() =~= cur);
                cur = cur.push(c);
            }
            cur_size = cur_size + w;
            last_cr = c == '\r';
        }
        i = i + 1;
    }
    if cur_size > 0 || last_cr {
        proof {
            assert(cur.len() > 0);
            assert(done + lines_from(s@, i as int, cur) =~= done.push(cur));
            done = done.push(cur);
        }
        sizes.push(cur_size);
    } else {
        proof {
            if cur.len() > 0 {
                assert(utf8_size(cur) >= char_width(cur.last()));
            }
            assert(done + lines_from(s@, i as int, cur) =~= done);
        }
    }
    sizes
}

} // verus!
