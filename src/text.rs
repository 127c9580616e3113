//! Character-level helpers shared by the text transforms.
use vstd::prelude::*;

verus! {

/// The characters with the Unicode `White_Space` property: what `\s` matches
/// in a Unicode regular expression and what `str::trim_start` removes.
pub open spec fn is_white_space(c: char) -> bool {
    ||| ('\u{9}' <= c && c <= '\u{d}')
    ||| c == ' '
    ||| c == '\u{85}'
    ||| c == '\u{a0}'
    ||| c == '\u{1680}'
    ||| ('\u{2000}' <= c && c <= '\u{200a}')
    ||| c == '\u{2028}'
    ||| c == '\u{2029}'
    ||| c == '\u{202f}'
    ||| c == '\u{205f}'
    ||| c == '\u{3000}'
}

pub fn white_space(c: char) -> (r: bool)
    ensures
        r == is_white_space(c),
{
    ('\u{9}' <= c && c <= '\u{d}') || c == ' ' || c == '\u{85}' || c == '\u{a0}' || c == '\u{1680}'
        || ('\u{2000}' <= c && c <= '\u{200a}') || c == '\u{2028}' || c == '\u{2029}' || c
        == '\u{202f}' || c == '\u{205f}' || c == '\u{3000}'
}

/// Number of white-space characters in the run that starts at `j`.
pub open spec fn white_run(s: Seq<char>, j: int) -> nat
    decreases s.len() - j,
{
    if 0 <= j < s.len() && is_white_space(s[j]) {
        1 + white_run(s, j + 1)
    } else {
        0
    }
}

/// `p` occurs in `s` at position `j`.
pub open spec fn is_at(s: Seq<char>, j: int, p: Seq<char>) -> bool {
    0 <= j && j + p.len() <= s.len() && s.subrange(j, j + p.len()) == p
}

/// Collects the characters of `s`, in order.
pub fn chars_of(s: &str) -> (r: Vec<char>)
    ensures
        r@ == s@,
{
    let mut r: Vec<char> = Vec::new();
    for c in it: s.chars()
        invariant
            it.seq() == s@,
            r@ == it.seq().take(it.index() as int),
    {
        r.push(c);
    }
    r
}

/// Index just past the white-space run of `s` that starts at `j`.
pub fn skip_white(s: &Vec<char>, j: usize) -> (r: usize)
    requires
        j <= s@.len(),
    ensures
        r == j + white_run(s@, j as int),
        r <= s@.len(),
{
    let mut k: usize = j;
    while k < s.len() && white_space(s[k])
        invariant
            j <= k <= s@.len(),
            white_run(s@, j as int) == (k - j) + white_run(s@, k as int),
        decreases s@.len() - k,
    {
        k = k + 1;
    }
    k
}

/// Appends `s[from..to]` to `out`.
pub fn push_range(out: &mut String, s: &str, from: usize, to: usize)
    requires
        from <= to <= s@.len(),
    ensures
        final(out)@ == old(out)@ + s@.subrange(from as int, to as int),
{
    let piece = s.substring_char(from, to);
    out.append(piece);
}

/// Whether `p` occurs in `s` at position `j`.
pub fn matches_at(s: &Vec<char>, j: usize, p: &Vec<char>) -> (r: bool)
    requires
        j <= s@.len(),
    ensures
        r == is_at(s@, j as int, p@),
{
    if p.len() > s.len() - j {
        return false;
    }
    let mut k: usize = 0;
    while k < p.len()
        invariant
            k <= p@.len(),
            j + p@.len() <= s@.len(),
            s@.len() <= usize::MAX,
            forall|t: int| 0 <= t < k ==> s@[j + t] == p@[t],
        decreases p@.len() - k,
    {
        assert(j + k < s@.len());
        if s[j + k] != p[k] {
            assert(s@.subrange(j as int, j + p@.len())[k as int] != p@[k as int]);
            return false;
        }
        k = k + 1;
    }
    assert(s@.subrange(j as int, j + p@.len()) =~= p@);
    true
}

} // verus!
