//! Removes editor schema directives (`#:schema ...` lines) from a manifest.
use vstd::prelude::*;
use crate::text::{chars_of, is_at, matches_at, skip_white, white_run};

verus! {

/// Number of characters from `j` up to the next line feed (or the end).
pub open spec fn line_len(s: Seq<char>, j: int) -> nat
    decreases s.len() - j,
{
    if 0 <= j < s.len() && s[j] != '\n' {
        1 + line_len(s, j + 1)
    } else {
        0
    }
}

/// A line without the carriage return of a `\r\n` ending.
pub open spec fn trim_cr(l: Seq<char>) -> Seq<char> {
    if l.len() > 0 && l.last() == '\r' {
        l.drop_last()
    } else {
        l
    }
}

/// The lines of `s` from position `j` on, as `str::lines` yields them: split
/// at each `\n`, a `\r` before it dropped, no empty line after a final `\n`.
pub open spec fn lines_from(s: Seq<char>, j: int) -> Seq<Seq<char>>
    decreases s.len() - j,
{
    if j < 0 || j >= s.len() {
        Seq::empty()
    } else if j + line_len(s, j) < s.len() {
        seq![trim_cr(s.subrange(j, j + line_len(s, j)))] + lines_from(s, j + line_len(s, j) + 1)
    } else {
        seq![s.subrange(j, s.len() as int)]
    }
}

pub open spec fn lines(s: Seq<char>) -> Seq<Seq<char>> {
    lines_from(s, 0)
}

/// The line, with leading white space trimmed, begins with `#:schema`.
pub open spec fn is_schema_line(l: Seq<char>) -> bool {
    is_at(l, white_run(l, 0) as int, "#:schema"@)
}

pub open spec fn keeps_line() -> spec_fn(Seq<char>) -> bool {
    |l: Seq<char>| !is_schema_line(l)
}

/// The lines joined with `\n` between them.
pub open spec fn join_lines(ls: Seq<Seq<char>>) -> Seq<char>
    decreases ls.len(),
{
    if ls.len() == 0 {
        Seq::empty()
    } else if ls.len() == 1 {
        ls[0]
    } else {
        join_lines(ls.drop_last()) + "\n"@ + ls.last()
    }
}

/// The manifest text without its schema lines.
pub open spec fn stripped(s: Seq<char>) -> Seq<char> {
    join_lines(lines(s).filter(keeps_line()))
}

fn line_end(s: &Vec<char>, j: usize) -> (r: usize)
    requires
        j <= s@.len(),
    ensures
        r == j + line_len(s@, j as int),
        r <= s@.len(),
{
    let mut k: usize = j;
    while k < s.len() && s[k] != '\n'
        invariant
            j <= k <= s@.len(),
            j + line_len(s@, j as int) == k + line_len(s@, k as int),
        decreases s@.len() - k,
    {
        k = k + 1;
    }
    k
}

/// Drops every line whose trimmed form begins with `#:schema`; the other
/// lines, blank ones included, are kept in order and joined with `\n`.
pub fn strip_schema_lines(content: &str) -> (r: String)
    ensures
        r@ == stripped(content@),
{
    let s = chars_of(content);
    let marker = chars_of("#:schema");
    let ghost mut done: Seq<Seq<char>> = Seq::empty();
    let mut out = String::new();
    let mut any: bool = false;
    let mut j: usize = 0;
    while j < s.len()
        invariant
            s@ == content@,
            marker@ == "#:schema"@,
            j <= s@.len(),
            lines(s@) == done + lines_from(s@, j as int),
            out@ == join_lines(done.filter(keeps_line())),
            any == (done.filter(keeps_line()).len() > 0),
        decreases s@.len() - j,
    {
        let end = line_end(&s, j);
        let mut stop: usize = end;
        if end < s.len() && end > j && s[end - 1] == '\r' {
            stop = end - 1;
        }
        let line = content.substring_char(j, stop);
        let lv = chars_of(line);
        let ghost l = line@;
        proof {
            if end < s@.len() {
                assert(l == trim_cr(s@.subrange(j as int, end as int)));
            } else {
                assert(l == s@.subrange(j as int, s@.len() as int));
            }
            assert(lines_from(s@, j as int) == seq![l] + lines_from(s@, end + 1));
            assert(done + lines_from(s@, j as int) == done.push(l) + lines_from(s@, end + 1));
            assert(done.push(l).drop_last() =~= done);
        }
        let w = skip_white(&lv, 0);
        let schema = matches_at(&lv, w, &marker);
        let ghost before = out@;
        if !schema {
            if any {
                out.append("\n");
            }
            out.append(line);
            any = true;
        }
        proof {
            let f = keeps_line();
            let nd = done.push(l);
            let kd = done.filter(f);
            assert(schema == is_schema_line(l));
            done.lemma_filter_push(l, f);
            assert(nd.drop_last() =~= done);
            assert(nd.last() == l);
            if !schema {
                assert(f(l));
                assert(nd.filter(f) == kd.push(l));
                assert(kd.push(l).drop_last() =~= kd);
                assert(kd.push(l).last() == l);
                if kd.len() > 0 {
                    assert(join_lines(kd.push(l)) == join_lines(kd) + "\n"@ + l);
                } else {
                    assert(join_lines(kd.push(l)) == l);
                    assert(before =~= Seq::<char>::empty());
                    assert(out@ =~= l);
                }
            } else {
                assert(!f(l));
                assert(nd.filter(f) == kd);
            }
            done = nd;
        }
        j = if end < s.len() {
            end + 1
        } else {
            end
        };
    }
    proof {
        assert(lines_from(s@, j as int) =~= Seq::<Seq<char>>::empty());
        assert(done + Seq::<Seq<char>>::empty() =~= done);
    }
    out
}

} // verus!
