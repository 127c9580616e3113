//! Rewriting a rewritten text changes nothing more.
//!
//! The rewrite is a left-to-right scan, so an import could in principle
//! appear in the output that the scan of the input stepped over: inside a
//! replaced specifier, inside the package name or version, or reaching from
//! untouched text into a replacement. None of that can happen when no `#`
//! occurs in the entrypoint's file name, the package name, the version or the
//! specifier of a replaced import, and no `"` in the file name.
use vstd::prelude::*;
use crate::imports::{
    import_end, is_self_import, name_at, qualified_import, quote_at, rewrite_from, rewritten,
    specifier_at, until_quote, up_count,
};
use crate::text::{is_white_space, white_run};

verus! {

/// `x` from `a` and `y` from `b` hold the same `l` characters.
pub open spec fn agree(x: Seq<char>, a: int, y: Seq<char>, b: int, l: int) -> bool {
    &&& 0 <= a && 0 <= b && 0 <= l && a + l <= x.len() && b + l <= y.len()
    &&& forall|k: int| a <= k < a + l ==> #[trigger] x[k] == y[k - a + b]
}

proof fn lemma_agree_subrange(x: Seq<char>, a: int, y: Seq<char>, b: int, l: int, p: int, q: int)
    requires
        agree(x, a, y, b, l),
        a <= p <= q <= a + l,
    ensures
        y.subrange(p - a + b, q - a + b) == x.subrange(p, q),
{
    assert forall|k: int| 0 <= k < q - p implies y.subrange(p - a + b, q - a + b)[k] == x.subrange(
        p,
        q,
    )[k] by {
        assert(x[p + k] == y[p + k - a + b]);
    }
    assert(y.subrange(p - a + b, q - a + b) =~= x.subrange(p, q));
}

proof fn lemma_white_agree(x: Seq<char>, a: int, y: Seq<char>, b: int, l: int, j: int)
    requires
        agree(x, a, y, b, l),
        a <= j,
        j + white_run(x, j) < a + l,
    ensures
        white_run(y, j - a + b) == white_run(x, j),
    decreases x.len() - j,
{
    assert(x[j] == y[j - a + b]);
    if is_white_space(x[j]) {
        lemma_white_agree(x, a, y, b, l, j + 1);
    }
}

proof fn lemma_quote_agree(x: Seq<char>, a: int, y: Seq<char>, b: int, l: int, j: int)
    requires
        agree(x, a, y, b, l),
        a <= j,
        j + until_quote(x, j) < a + l,
    ensures
        until_quote(y, j - a + b) == until_quote(x, j),
    decreases x.len() - j,
{
    assert(x[j] == y[j - a + b]);
    if x[j] != '"' {
        lemma_quote_agree(x, a, y, b, l, j + 1);
    }
}

/// The three characters from `j` lie before `end`, or a quote among them does.
pub open spec fn stop_seen(x: Seq<char>, j: int, end: int) -> bool {
    ||| j + 3 <= end
    ||| (j < end && x[j] == '"')
    ||| (j + 1 < end && x[j + 1] == '"')
    ||| (j + 2 < end && x[j + 2] == '"')
}

proof fn lemma_up_agree(x: Seq<char>, a: int, y: Seq<char>, b: int, l: int, j: int)
    requires
        agree(x, a, y, b, l),
        a <= j,
        j + 3 * up_count(x, j) < a + l,
        stop_seen(x, j + 3 * up_count(x, j), a + l),
    ensures
        up_count(y, j - a + b) == up_count(x, j),
    decreases x.len() - j,
{
    let jy = j - a + b;
    if j + 3 <= x.len() && x[j] == '.' && x[j + 1] == '.' && x[j + 2] == '/' {
        assert(x[j] == y[jy]);
        assert(x[j + 1] == y[jy + 1]);
        assert(x[j + 2] == y[jy + 2]);
        lemma_up_agree(x, a, y, b, l, j + 3);
    } else {
        if j + 3 <= a + l {
            assert(x[j] == y[jy]);
            assert(x[j + 1] == y[jy + 1]);
            assert(x[j + 2] == y[jy + 2]);
        } else if j < a + l && x[j] == '"' {
            assert(x[j] == y[jy]);
        } else if j + 1 < a + l && x[j + 1] == '"' {
            assert(x[j] == y[jy]);
            assert(x[j + 1] == y[jy + 1]);
        } else {
            assert(x[j] == y[jy]);
            assert(x[j + 1] == y[jy + 1]);
            assert(x[j + 2] == y[jy + 2]);
        }
    }
}

proof fn lemma_white_chars(s: Seq<char>, j: int, k: int)
    requires
        0 <= j <= k < j + white_run(s, j),
    ensures
        k < s.len() && is_white_space(s[k]),
    decreases k - j,
{
    if k > j {
        lemma_white_chars(s, j + 1, k);
    }
}

proof fn lemma_up_chars(s: Seq<char>, j: int, k: int)
    requires
        0 <= j <= k < j + 3 * up_count(s, j),
    ensures
        k < s.len() && (s[k] == '.' || s[k] == '/'),
    decreases k - j,
{
    if k >= j + 3 {
        lemma_up_chars(s, j + 3, k);
    }
}

proof fn lemma_quote_chars(s: Seq<char>, j: int, k: int)
    requires
        0 <= j <= k < j + until_quote(s, j),
    ensures
        k < s.len() && s[k] != '"',
    decreases k - j,
{
    if k > j {
        lemma_quote_chars(s, j + 1, k);
    }
}

proof fn lemma_quote_stop(s: Seq<char>, j: int)
    requires
        0 <= j,
        j + until_quote(s, j) < s.len(),
    ensures
        s[j + until_quote(s, j)] == '"',
    decreases s.len() - j,
{
    if j < s.len() && s[j] != '"' {
        lemma_quote_stop(s, j + 1);
    }
}

proof fn lemma_quote_unique(s: Seq<char>, j: int, m: int)
    requires
        0 <= j <= m < s.len(),
        s[m] == '"',
        forall|k: int| j <= k < m ==> s[k] != '"',
    ensures
        until_quote(s, j) == m - j,
    decreases m - j,
{
    if j < m {
        lemma_quote_unique(s, j + 1, m);
    }
}

/// The closing quote of a self-import is its last character.
proof fn lemma_import_closes(s: Seq<char>, i: int, entry: Seq<char>)
    requires
        is_self_import(s, i, entry),
    ensures
        specifier_at(s, i, entry) < import_end(s, i, entry) <= s.len(),
        s[import_end(s, i, entry) - 1] == '"',
{
    let x = specifier_at(s, i, entry);
    if s[x] != '"' {
        lemma_quote_stop(s, x);
    }
}

/// Whether a self-import starts somewhere depends only on the characters it spans.
proof fn lemma_import_agree(x: Seq<char>, a: int, y: Seq<char>, b: int, l: int, entry: Seq<char>)
    requires
        agree(x, a, y, b, l),
        is_self_import(x, a, entry),
        import_end(x, a, entry) <= a + l,
    ensures
        is_self_import(y, b, entry),
        import_end(y, b, entry) == import_end(x, a, entry) - a + b,
        specifier_at(y, b, entry) == specifier_at(x, a, entry) - a + b,
{
    reveal_strlit("#import");
    lemma_import_closes(x, a, entry);
    let e = import_end(x, a, entry);
    let q = quote_at(x, a);
    let pn = name_at(x, a);
    let xs = specifier_at(x, a, entry);
    lemma_agree_subrange(x, a, y, b, l, a, a + 7);
    lemma_white_agree(x, a, y, b, l, a + 7);
    assert(x[q] == y[q - a + b]);
    assert(stop_seen(x, pn, a + l)) by {
        if pn + 3 > a + l {
            assert(x[e - 1] == '"');
        }
    }
    lemma_up_agree(x, a, y, b, l, q + 1);
    lemma_agree_subrange(x, a, y, b, l, pn, xs);
    assert(x[xs] == y[xs - a + b]);
    if x[xs] != '"' {
        lemma_quote_agree(x, a, y, b, l, xs);
    }
}

/// Text put in front does not change how the rest is rewritten.
proof fn lemma_rewrite_shift(
    p: Seq<char>,
    y: Seq<char>,
    k: int,
    entry: Seq<char>,
    name: Seq<char>,
    version: Seq<char>,
)
    requires
        0 <= k <= y.len(),
    ensures
        rewrite_from(p + y, p.len() + k, entry, name, version) == rewrite_from(
            y,
            k,
            entry,
            name,
            version,
        ),
    decreases y.len() - k,
{
    let x = p + y;
    let a = p.len() as int;
    if k < y.len() {
        let l = y.len() - k;
        assert(agree(x, a + k, y, k, l));
        assert forall|t: int| k <= t < k + l implies #[trigger] y[t] == x[t - k + (a + k)] by {}
        assert(agree(y, k, x, a + k, l));
        if is_self_import(y, k, entry) {
            lemma_import_closes(y, k, entry);
            lemma_import_agree(y, k, x, a + k, l, entry);
            let sy = specifier_at(y, k, entry);
            let ey = import_end(y, k, entry);
            lemma_agree_subrange(y, k, x, a + k, l, sy, ey - 1);
            assert(qualified_import(x, a + k, entry, name, version) == qualified_import(
                y,
                k,
                entry,
                name,
                version,
            ));
            lemma_rewrite_shift(p, y, ey, entry, name, version);
        } else {
            if is_self_import(x, a + k, entry) {
                lemma_import_closes(x, a + k, entry);
                lemma_import_agree(x, a + k, y, k, l, entry);
            }
            assert(x[a + k] == y[k]);
            lemma_rewrite_shift(p, y, k + 1, entry, name, version);
        }
    }
}

/// A stretch without `#` holds no import and is kept as it is.
proof fn lemma_rewrite_no_hash(
    x: Seq<char>,
    p: int,
    q: int,
    entry: Seq<char>,
    name: Seq<char>,
    version: Seq<char>,
)
    requires
        0 <= p <= q <= x.len(),
        forall|k: int| p <= k < q ==> x[k] != '#',
    ensures
        rewrite_from(x, p, entry, name, version) == x.subrange(p, q) + rewrite_from(
            x,
            q,
            entry,
            name,
            version,
        ),
    decreases q - p,
{
    reveal_strlit("#import");
    if p < q {
        if is_self_import(x, p, entry) {
            assert(x.subrange(p, p + 7)[0] == '#');
        }
        lemma_rewrite_no_hash(x, p + 1, q, entry, name, version);
        assert(seq![x[p]] + x.subrange(p + 1, q) =~= x.subrange(p, q));
    } else {
        assert(x.subrange(p, q) =~= Seq::<char>::empty());
    }
}

/// The first self-import at or after `i`, or the end of the text.
pub open spec fn next_import(s: Seq<char>, i: int, entry: Seq<char>) -> int
    decreases s.len() - i,
{
    if i < 0 || i >= s.len() {
        s.len() as int
    } else if is_self_import(s, i, entry) {
        i
    } else {
        next_import(s, i + 1, entry)
    }
}

proof fn lemma_next_import(
    s: Seq<char>,
    i: int,
    entry: Seq<char>,
    name: Seq<char>,
    version: Seq<char>,
)
    requires
        0 <= i <= s.len(),
    ensures
        i <= next_import(s, i, entry) <= s.len(),
        next_import(s, i, entry) < s.len() ==> is_self_import(s, next_import(s, i, entry), entry),
        rewrite_from(s, i, entry, name, version) == s.subrange(i, next_import(s, i, entry))
            + rewrite_from(s, next_import(s, i, entry), entry, name, version),
    decreases s.len() - i,
{
    if i < s.len() && !is_self_import(s, i, entry) {
        lemma_next_import(s, i + 1, entry, name, version);
        let r = next_import(s, i, entry);
        assert(seq![s[i]] + s.subrange(i + 1, r) =~= s.subrange(i, r));
    } else {
        assert(s.subrange(i, i) =~= Seq::<char>::empty());
    }
}

pub open spec fn lacks(t: Seq<char>, c: char) -> bool {
    forall|k: int| 0 <= k < t.len() ==> t[k] != c
}

/// No replaced import of `s` has a `#` in its specifier.
pub open spec fn specifiers_lack_hash(s: Seq<char>, entry: Seq<char>) -> bool {
    forall|i: int|
        #![trigger is_self_import(s, i, entry)]
        is_self_import(s, i, entry) ==> lacks(
            s.subrange(specifier_at(s, i, entry), import_end(s, i, entry) - 1),
            '#',
        )
}

/// The conditions under which rewriting is idempotent.
pub open spec fn separable(
    s: Seq<char>,
    entry: Seq<char>,
    name: Seq<char>,
    version: Seq<char>,
) -> bool {
    &&& lacks(entry, '#')
    &&& lacks(entry, '"')
    &&& lacks(name, '#')
    &&& lacks(version, '#')
    &&& specifiers_lack_hash(s, entry)
}

proof fn lemma_literal_prefix()
    ensures
        "#import \"@preview/"@.len() == 18,
        "#import \"@preview/"@.subrange(0, 7) == "#import"@,
        "#import \"@preview/"@[7] == ' ',
        "#import \"@preview/"@[8] == '"',
        "#import \"@preview/"@[9] == '@',
        forall|k: int| 1 <= k < 18 ==> "#import \"@preview/"@[k] != '#',
{
    reveal_strlit("#import \"@preview/");
    reveal_strlit("#import");
    assert("#import \"@preview/"@.subrange(0, 7) =~= "#import"@);
}

/// Where the scan of `s` keeps the character at `i`, the rewritten text from
/// there holds no self-import at its start either.
proof fn lemma_no_import_at_kept(
    s: Seq<char>,
    i: int,
    entry: Seq<char>,
    name: Seq<char>,
    version: Seq<char>,
)
    requires
        separable(s, entry, name, version),
        0 <= i < s.len(),
        !is_self_import(s, i, entry),
    ensures
        !is_self_import(seq![s[i]] + rewrite_from(s, i + 1, entry, name, version), 0, entry),
{
    reveal_strlit("#import");
    let t1 = rewrite_from(s, i + 1, entry, name, version);
    let x = seq![s[i]] + t1;
    lemma_next_import(s, i + 1, entry, name, version);
    let r = next_import(s, i + 1, entry);
    if is_self_import(x, 0, entry) {
        lemma_import_closes(x, 0, entry);
        let e = import_end(x, 0, entry);
        if r == s.len() {
            assert(rewrite_from(s, r, entry, name, version) =~= Seq::<char>::empty());
            assert(x =~= s.subrange(i, s.len() as int));
            assert(agree(x, 0, s, i, s.len() - i));
            lemma_import_agree(x, 0, s, i, s.len() - i, entry);
        } else {
            lemma_import_closes(s, r, entry);
            lemma_literal_prefix();
            let er = import_end(s, r, entry);
            let rq = qualified_import(s, r, entry, name, version);
            let d = r - i;
            assert(x =~= s.subrange(i, r) + (rq + rewrite_from(s, er, entry, name, version)));
            assert forall|k: int| 0 <= k < d + 7 implies #[trigger] x[k] == s[k - 0 + i] by {
                if k >= d {
                    assert(rq[k - d] == "#import \"@preview/"@.subrange(0, 7)[k - d]);
                    assert(s.subrange(r, r + 7)[k - d] == "#import"@[k - d]);
                }
            }
            assert(agree(x, 0, s, i, d + 7));
            if e <= d + 7 {
                lemma_import_agree(x, 0, s, i, d + 7, entry);
            } else {
                let q = quote_at(x, 0);
                let pn = name_at(x, 0);
                let xs = specifier_at(x, 0, entry);
                assert(x[d] == '#') by {
                    assert(rq[0] == "#import \"@preview/"@.subrange(0, 7)[0]);
                }
                if d <= xs {
                    if d < 7 {
                        assert(x.subrange(0, 7)[d] == "#import"@[d]);
                    } else if d < q {
                        lemma_white_chars(x, 7, d);
                    } else if d == q {
                    } else if d < pn {
                        lemma_up_chars(x, q + 1, d);
                    } else if d < xs {
                        assert(x.subrange(pn, xs)[d - pn] == entry[d - pn]);
                    }
                    assert(false);
                }
                lemma_agree_subrange(x, 0, s, i, d + 7, 0, 7);
                lemma_white_agree(x, 0, s, i, d + 7, 7);
                assert(x[q] == s[q - 0 + i]);
                lemma_up_agree(x, 0, s, i, d + 7, q + 1);
                lemma_agree_subrange(x, 0, s, i, d + 7, pn, xs);
                assert(x[xs] == s[xs - 0 + i]);
                let qr = quote_at(s, r);
                assert forall|k: int| i + xs <= k < qr implies s[k] != '"' by {
                    if k < r {
                        assert(x[k - i] == s[k - i - 0 + i]);
                        lemma_quote_chars(x, xs, k - i);
                    } else if k < r + 7 {
                        assert(s.subrange(r, r + 7)[k - r] == "#import"@[k - r]);
                    } else {
                        lemma_white_chars(s, r + 7, k);
                    }
                }
                lemma_quote_unique(s, i + xs, qr);
                assert(is_self_import(s, i, entry));
            }
        }
    }
}

proof fn lemma_fixpoint_from(
    s: Seq<char>,
    i: int,
    entry: Seq<char>,
    name: Seq<char>,
    version: Seq<char>,
)
    requires
        separable(s, entry, name, version),
        0 <= i <= s.len(),
    ensures
        rewritten(rewrite_from(s, i, entry, name, version), entry, name, version) == rewrite_from(
            s,
            i,
            entry,
            name,
            version,
        ),
    decreases s.len() - i,
{
    let t = rewrite_from(s, i, entry, name, version);
    if i == s.len() {
        assert(t =~= Seq::<char>::empty());
    } else if is_self_import(s, i, entry) {
        lemma_import_closes(s, i, entry);
        lemma_literal_prefix();
        reveal_strlit(":");
        reveal_strlit("\"");
        let e = import_end(s, i, entry);
        lemma_fixpoint_from(s, e, entry, name, version);
        let rq = qualified_import(s, i, entry, name, version);
        let rest = rewrite_from(s, e, entry, name, version);
        let x = rq + rest;
        let sp = s.subrange(specifier_at(s, i, entry), e - 1);
        assert(lacks(sp, '#'));
        let lit = "#import \"@preview/"@;
        assert(rq == lit + name + ":"@ + version + sp + "\""@);
        assert(x[7] == ' ' && x[8] == '"' && x[9] == '@');
        assert(white_run(x, 8) == 0);
        assert(white_run(x, 7) == 1);
        assert(up_count(x, 9) == 0);
        assert(!is_self_import(x, 0, entry));
        assert forall|k: int| 1 <= k < rq.len() implies x[k] != '#' by {
            let n2 = 18 + name.len();
            let n4 = n2 + 1 + version.len();
            let n5 = n4 + sp.len();
            if k < 18 {
            } else if k < n2 {
                assert(x[k] == name[k - 18]);
            } else if k == n2 {
            } else if k < n4 {
                assert(x[k] == version[k - n2 - 1]);
            } else if k < n5 {
                assert(x[k] == sp[k - n4]);
            }
        }
        lemma_rewrite_no_hash(x, 1, rq.len() as int, entry, name, version);
        lemma_rewrite_shift(rq, rest, 0, entry, name, version);
        assert(seq![x[0]] + x.subrange(1, rq.len() as int) + rest =~= x);
    } else {
        lemma_fixpoint_from(s, i + 1, entry, name, version);
        let t1 = rewrite_from(s, i + 1, entry, name, version);
        lemma_no_import_at_kept(s, i, entry, name, version);
        lemma_rewrite_shift(seq![s[i]], t1, 0, entry, name, version);
        assert((seq![s[i]] + t1)[0] == s[i]);
    }
}

/// Rewriting a rewritten text changes nothing, where no `#` can start an
/// import inside a replacement: none in the entrypoint's file name, the
/// package name, the version or a replaced specifier, and no `"` in the file
/// name.
pub proof fn lemma_rewrite_idempotent(
    s: Seq<char>,
    entry: Seq<char>,
    name: Seq<char>,
    version: Seq<char>,
)
    requires
        separable(s, entry, name, version),
    ensures
        rewritten(rewritten(s, entry, name, version), entry, name, version) == rewritten(
            s,
            entry,
            name,
            version,
        ),
{
    lemma_fixpoint_from(s, 0, entry, name, version);
}

} // verus!
