//! Rewrites a package's relative imports of its own entrypoint into imports of
//! its published coordinate `@preview/<name>:<version>`.
//!
//! A self-import is the text `#import`, one or more white-space characters, a
//! double quote, one or more `../` segments, the entrypoint's file name, then
//! either a closing quote or a `:` and everything up to the next quote
//! (the specifier, kept as it is) followed by that quote.
use vstd::prelude::*;
use crate::error::ConfigError;
use crate::paths::{file_name_of, path_file_name};
use crate::text::{chars_of, is_at, matches_at, push_range, skip_white, white_run};

verus! {

/// Number of consecutive `../` segments starting at `j`.
pub open spec fn up_count(s: Seq<char>, j: int) -> nat
    decreases s.len() - j,
{
    if 0 <= j && j + 3 <= s.len() && s[j] == '.' && s[j + 1] == '.' && s[j + 2] == '/' {
        1 + up_count(s, j + 3)
    } else {
        0
    }
}

/// Number of characters from `j` up to the next double quote (or the end).
pub open spec fn until_quote(s: Seq<char>, j: int) -> nat
    decreases s.len() - j,
{
    if 0 <= j < s.len() && s[j] != '"' {
        1 + until_quote(s, j + 1)
    } else {
        0
    }
}

/// Position of the opening quote of an import starting at `i`.
pub open spec fn quote_at(s: Seq<char>, i: int) -> int {
    i + 7 + white_run(s, i + 7)
}

/// Position just past the `../` segments, where the file name must start.
pub open spec fn name_at(s: Seq<char>, i: int) -> int {
    quote_at(s, i) + 1 + 3 * up_count(s, quote_at(s, i) + 1)
}

/// Position just past the entrypoint's file name: where the specifier starts.
pub open spec fn specifier_at(s: Seq<char>, i: int, entry: Seq<char>) -> int {
    name_at(s, i) + entry.len()
}

/// Position just past the closing quote of a self-import at `i`.
pub open spec fn import_end(s: Seq<char>, i: int, entry: Seq<char>) -> int {
    let x = specifier_at(s, i, entry);
    if s[x] == '"' {
        x + 1
    } else {
        x + until_quote(s, x) + 1
    }
}

/// A relative self-import of the file named `entry` starts at position `i`.
pub open spec fn is_self_import(s: Seq<char>, i: int, entry: Seq<char>) -> bool {
    let q = quote_at(s, i);
    let x = specifier_at(s, i, entry);
    &&& is_at(s, i, "#import"@)
    &&& white_run(s, i + 7) > 0
    &&& q < s.len() && s[q] == '"'
    &&& up_count(s, q + 1) > 0
    &&& is_at(s, name_at(s, i), entry)
    &&& x < s.len()
    &&& (s[x] == '"' || (s[x] == ':' && x + until_quote(s, x) < s.len()))
}

/// The qualified import that replaces a self-import at `i`, specifier kept.
pub open spec fn qualified_import(
    s: Seq<char>,
    i: int,
    entry: Seq<char>,
    name: Seq<char>,
    version: Seq<char>,
) -> Seq<char> {
    "#import \"@preview/"@ + name + ":"@ + version + s.subrange(
        specifier_at(s, i, entry),
        import_end(s, i, entry) - 1,
    ) + "\""@
}

/// The rewrite of `s` from position `i` on: self-imports are replaced left to
/// right, each scan resuming after the replaced import; all else is kept.
pub open spec fn rewrite_from(
    s: Seq<char>,
    i: int,
    entry: Seq<char>,
    name: Seq<char>,
    version: Seq<char>,
) -> Seq<char>
    decreases s.len() - i,
{
    if i < 0 || i >= s.len() {
        Seq::empty()
    } else if is_self_import(s, i, entry) {
        qualified_import(s, i, entry, name, version) + rewrite_from(
            s,
            import_end(s, i, entry),
            entry,
            name,
            version,
        )
    } else {
        seq![s[i]] + rewrite_from(s, i + 1, entry, name, version)
    }
}

/// The whole of `s` with every self-import of `entry` qualified.
pub open spec fn rewritten(
    s: Seq<char>,
    entry: Seq<char>,
    name: Seq<char>,
    version: Seq<char>,
) -> Seq<char> {
    rewrite_from(s, 0, entry, name, version)
}

fn skip_up(s: &Vec<char>, j: usize) -> (r: usize)
    requires
        j <= s@.len(),
    ensures
        r == j + 3 * up_count(s@, j as int),
        r <= s@.len(),
{
    let mut k: usize = j;
    while s.len() - k >= 3 && s[k] == '.' && s[k + 1] == '.' && s[k + 2] == '/'
        invariant
            j <= k <= s@.len(),
            j + 3 * up_count(s@, j as int) == k + 3 * up_count(s@, k as int),
        decreases s@.len() - k,
    {
        k = k + 3;
    }
    k
}

fn skip_to_quote(s: &Vec<char>, j: usize) -> (r: usize)
    requires
        j <= s@.len(),
    ensures
        r == j + until_quote(s@, j as int),
        r <= s@.len(),
{
    let mut k: usize = j;
    while k < s.len() && s[k] != '"'
        invariant
            j <= k <= s@.len(),
            j + until_quote(s@, j as int) == k + until_quote(s@, k as int),
        decreases s@.len() - k,
    {
        k = k + 1;
    }
    k
}

/// Where a self-import starts at `i`: the specifier's start and the import's end.
fn self_import_at(s: &Vec<char>, kw: &Vec<char>, i: usize, entry: &Vec<char>) -> (r: Option<
    (usize, usize),
>)
    requires
        i < s@.len(),
        kw@ == "#import"@,
    ensures
        match r {
            Some((x, e)) => {
                &&& is_self_import(s@, i as int, entry@)
                &&& x == specifier_at(s@, i as int, entry@)
                &&& e == import_end(s@, i as int, entry@)
                &&& x < e <= s@.len()
            },
            None => !is_self_import(s@, i as int, entry@),
        },
{
    proof {
        reveal_strlit("#import");
    }
    assert(kw@.len() == 7);
    assert(s@.len() == s.len());
    if !matches_at(s, i, kw) {
        return None;
    }
    let w = skip_white(s, i + 7);
    if w == i + 7 || w >= s.len() || s[w] != '"' {
        return None;
    }
    let p = skip_up(s, w + 1);
    if p == w + 1 {
        return None;
    }
    if !matches_at(s, p, entry) {
        return None;
    }
    let x = p + entry.len();
    if x >= s.len() {
        return None;
    }
    if s[x] == '"' {
        return Some((x, x + 1));
    }
    if s[x] != ':' {
        return None;
    }
    let m = skip_to_quote(s, x);
    if m >= s.len() {
        return None;
    }
    Some((x, m + 1))
}

/// Replaces every relative self-import of the file named `entry` in `content`
/// by an import of `@preview/<name>:<version>`, keeping each specifier.
pub fn rewrite_imports(content: &str, name: &str, version: &str, entry: &str) -> (r: String)
    ensures
        r@ == rewritten(content@, entry@, name@, version@),
{
    let s = chars_of(content);
    let e = chars_of(entry);
    let kw = chars_of("#import");
    let ghost sv = s@;
    let mut out = String::new();
    let mut start: usize = 0;
    let mut i: usize = 0;
    while i < s.len()
        invariant
            s@ == content@,
            e@ == entry@,
            kw@ == "#import"@,
            start <= i <= s@.len(),
            out@ + s@.subrange(start as int, i as int) + rewrite_from(
                s@,
                i as int,
                e@,
                name@,
                version@,
            ) == rewritten(s@, e@, name@, version@),
        decreases s@.len() - i,
    {
        match self_import_at(&s, &kw, i, &e) {
            Some((x, end)) => {
                let ghost before = out@;
                push_range(&mut out, content, start, i);
                out.append("#import \"@preview/");
                out.append(name);
                out.append(":");
                out.append(version);
                push_range(&mut out, content, x, end - 1);
                out.append("\"");
                assert(out@ == before + s@.subrange(start as int, i as int) + qualified_import(
                    s@,
                    i as int,
                    e@,
                    name@,
                    version@,
                ));
                assert(out@ + s@.subrange(end as int, end as int) =~= out@);
                i = end;
                start = end;
            },
            None => {
                assert(s@.subrange(start as int, i as int) + seq![s@[i as int]] =~= s@.subrange(
                    start as int,
                    i + 1,
                ));
                i = i + 1;
            },
        }
    }
    push_range(&mut out, content, start, i);
    out
}

/// Rewrites the self-imports of a source file of the package whose
/// entrypoint is at the path `entrypoint`; only its file name is matched.
pub fn rewrite_package_imports(
    content: &str,
    name: &str,
    version: &str,
    entrypoint: &str,
) -> (r: Result<String, ConfigError>)
    ensures
        match path_file_name(entrypoint@) {
            None => (r matches Err(ConfigError::InvalidEntrypoint { entrypoint: e })
                && e@ == entrypoint@),
            Some(n) => (r matches Ok(t) && t@ == rewritten(content@, n, name@, version@)),
        },
{
    match file_name_of(entrypoint) {
        None => Err(ConfigError::InvalidEntrypoint { entrypoint: entrypoint.to_owned() }),
        Some(n) => Ok(rewrite_imports(content, name, version, n.as_str())),
    }
}

/// Text with no self-import of `entry` anywhere is left unchanged: in
/// particular, a file whose imports are already qualified.
pub proof fn lemma_rewrite_without_self_imports(
    s: Seq<char>,
    entry: Seq<char>,
    name: Seq<char>,
    version: Seq<char>,
)
    requires
        forall|i: int| 0 <= i < s.len() ==> !is_self_import(s, i, entry),
    ensures
        rewritten(s, entry, name, version) == s,
{
    lemma_rewrite_suffix_unchanged(s, 0, entry, name, version);
    assert(s.subrange(0, s.len() as int) =~= s);
}

proof fn lemma_rewrite_suffix_unchanged(
    s: Seq<char>,
    i: int,
    entry: Seq<char>,
    name: Seq<char>,
    version: Seq<char>,
)
    requires
        0 <= i <= s.len(),
        forall|k: int| 0 <= k < s.len() ==> !is_self_import(s, k, entry),
    ensures
        rewrite_from(s, i, entry, name, version) == s.subrange(i, s.len() as int),
    decreases s.len() - i,
{
    if i < s.len() {
        lemma_rewrite_suffix_unchanged(s, i + 1, entry, name, version);
        assert(seq![s[i]] + s.subrange(i + 1, s.len() as int) =~= s.subrange(i, s.len() as int));
    } else {
        assert(s.subrange(i, s.len() as int) =~= Seq::<char>::empty());
    }
}

} // verus!
