//! Decides which paths of the package tree are left out of the output.
//!
//! A pattern holding any of `* ? [ ]` is a glob rule, matched by `globset`
//! against the whole `/`-separated relative path, with `*`, `?` and classes
//! never matching `/`. Any other pattern is a literal rule: it excludes the
//! path equal to it, and, where it names a directory (it ends with `/`, or a
//! directory of that name exists in the package), every path below it too.
use vstd::prelude::*;
use crate::error::ConfigError;
use crate::text::{chars_of, is_at, matches_at};
use globset::{GlobSet, GlobSetBuilder};

verus! {

#[verifier::external_type_specification]
#[verifier::external_body]
pub struct ExGlobSetBuilder(globset::GlobSetBuilder);

#[verifier::external_type_specification]
#[verifier::external_body]
pub struct ExGlobSet(globset::GlobSet);

#[verifier::external_type_specification]
#[verifier::external_body]
pub struct ExGlobError(globset::Error);

/// The patterns added to a glob set builder, in order.
pub uninterp spec fn builder_globs(b: GlobSetBuilder) -> Seq<Seq<char>>;

/// The patterns a glob set was built from, in order.
pub uninterp spec fn set_globs(s: GlobSet) -> Seq<Seq<char>>;

/// Whether the glob `pattern`, compiled with a literal separator, matches `path`.
pub uninterp spec fn glob_matches(pattern: Seq<char>, path: Seq<char>) -> bool;

/// Whether globset accepts `pattern` as a glob with a literal separator.
pub uninterp spec fn glob_accepts(pattern: Seq<char>) -> bool;

/// Whether globset compiles the accepted globs `patterns` into one set.
pub uninterp spec fn set_accepts(patterns: Seq<Seq<char>>) -> bool;

/// Relies on `globset::GlobSetBuilder::new`: a builder holding no pattern.
#[verifier::external_body]
fn new_builder() -> (r: GlobSetBuilder)
    ensures
        builder_globs(r) == Seq::<Seq<char>>::empty(),
{
    GlobSetBuilder::new()
}

/// Relies on `globset::GlobBuilder::build` (with `literal_separator` set) and
/// `globset::GlobSetBuilder::add`: a valid pattern is appended to the
/// builder's patterns; an invalid one leaves the builder as it was. Whether
/// the pattern is valid depends on its text alone.
#[verifier::external_body]
fn add_glob(b: &mut GlobSetBuilder, pattern: &str) -> (r: Result<(), globset::Error>)
    ensures
        r is Ok <==> glob_accepts(pattern@),
        r is Ok ==> builder_globs(*final(b)) == builder_globs(*old(b)).push(pattern@),
        r is Err ==> builder_globs(*final(b)) == builder_globs(*old(b)),
{
    match globset::GlobBuilder::new(pattern).literal_separator(true).build() {
        Ok(g) => {
            b.add(g);
            Ok(())
        },
        Err(e) => Err(e),
    }
}

/// Relies on `globset::GlobSetBuilder::build`: the set holds the builder's
/// patterns; a builder with no pattern always gives a set. Whether a set is
/// built depends on the builder's patterns alone.
#[verifier::external_body]
fn build_set(b: &GlobSetBuilder) -> (r: Result<GlobSet, globset::Error>)
    ensures
        r is Ok <==> set_accepts(builder_globs(*b)),
        r matches Ok(s) ==> set_globs(s) == builder_globs(*b),
        builder_globs(*b).len() == 0 ==> r is Ok,
{
    b.build()
}

/// Relies on `globset::GlobSet::is_match`: true when any glob of the set
/// matches the path.
#[verifier::external_body]
fn set_is_match(s: &GlobSet, path: &str) -> (r: bool)
    ensures
        r == (exists|i: int|
            0 <= i < set_globs(*s).len() && #[trigger] glob_matches(set_globs(*s)[i], path@)),
{
    s.is_match(path)
}

/// Relies on the `Display` impl of `globset::Error`: a message for the user,
/// of which nothing is claimed.
#[verifier::external_body]
fn glob_error_text(e: &globset::Error) -> (r: String) {
    e.to_string()
}

/// Every one of the glob patterns `gs` is accepted by globset.
pub open spec fn all_globs_accepted(gs: Seq<Seq<char>>) -> bool {
    forall|k: int| 0 <= k < gs.len() ==> #[trigger] glob_accepts(gs[k])
}

pub open spec fn is_glob_char(c: char) -> bool {
    c == '*' || c == '?' || c == '[' || c == ']'
}

/// The pattern holds a glob metacharacter.
pub open spec fn is_glob_pattern(p: Seq<char>) -> bool {
    exists|i: int| 0 <= i < p.len() && #[trigger] is_glob_char(p[i])
}

pub fn has_glob_metacharacters(s: &str) -> (r: bool)
    ensures
        r == is_glob_pattern(s@),
{
    let cs = chars_of(s);
    let mut i: usize = 0;
    while i < cs.len()
        invariant
            cs@ == s@,
            i <= cs@.len(),
            forall|k: int| 0 <= k < i ==> !is_glob_char(#[trigger] cs@[k]),
        decreases cs@.len() - i,
    {
        if cs[i] == '*' || cs[i] == '?' || cs[i] == '[' || cs[i] == ']' {
            assert(is_glob_char(s@[i as int]));
            return true;
        }
        i = i + 1;
    }
    false
}

/// `p` without its trailing `/` characters.
pub open spec fn trim_slashes(p: Seq<char>) -> Seq<char>
    decreases p.len(),
{
    if p.len() > 0 && p.last() == '/' {
        trim_slashes(p.drop_last())
    } else {
        p
    }
}

/// A literal rule: the path it names, and whether it is a directory rule.
pub struct LiteralRule {
    pub path: Vec<char>,
    pub directory: bool,
}

impl View for LiteralRule {
    type V = (Seq<char>, bool);

    open spec fn view(&self) -> (Seq<char>, bool) {
        (self.path@, self.directory)
    }
}

/// The rule made of the literal pattern `p`; `names_dir` tells whether a
/// directory of that name exists in the package.
pub open spec fn literal_rule(p: Seq<char>, names_dir: bool) -> (Seq<char>, bool) {
    (trim_slashes(p), names_dir || (p.len() > 0 && p.last() == '/'))
}

/// The glob patterns of `ps`, in order.
pub open spec fn glob_patterns(ps: Seq<Seq<char>>) -> Seq<Seq<char>>
    decreases ps.len(),
{
    if ps.len() == 0 {
        Seq::empty()
    } else if is_glob_pattern(ps.last()) {
        glob_patterns(ps.drop_last()).push(ps.last())
    } else {
        glob_patterns(ps.drop_last())
    }
}

/// The literal rules of `ps`, in order, each with its pattern's entry of `dirs`.
pub open spec fn literal_rules(ps: Seq<Seq<char>>, dirs: Seq<bool>) -> Seq<(Seq<char>, bool)>
    decreases ps.len(),
{
    if ps.len() == 0 || dirs.len() == 0 {
        Seq::empty()
    } else if is_glob_pattern(ps.last()) {
        literal_rules(ps.drop_last(), dirs.drop_last())
    } else {
        literal_rules(ps.drop_last(), dirs.drop_last()).push(literal_rule(ps.last(), dirs.last()))
    }
}

/// The rule excludes `path`: it is the rule's path, or lies below it.
pub open spec fn rule_excludes(rule: (Seq<char>, bool), path: Seq<char>) -> bool {
    ||| path == rule.0
    ||| (rule.1 && path.len() > rule.0.len() && is_at(path, 0, rule.0) && path[rule.0.len() as int]
        == '/')
}

/// Whether `path` is excluded by the glob patterns `globs` or the literal
/// rules `rules`.
pub open spec fn excludes(
    globs: Seq<Seq<char>>,
    rules: Seq<(Seq<char>, bool)>,
    path: Seq<char>,
) -> bool {
    ||| exists|i: int| 0 <= i < globs.len() && #[trigger] glob_matches(globs[i], path)
    ||| exists|i: int| 0 <= i < rules.len() && #[trigger] rule_excludes(rules[i], path)
}

pub open spec fn string_views(ps: Seq<String>) -> Seq<Seq<char>> {
    ps.map_values(|p: String| p@)
}

/// The exclusion rules of a package, classified once.
pub struct ExclusionMatcher {
    globs: GlobSet,
    literals: Vec<LiteralRule>,
}

impl ExclusionMatcher {
    /// The glob patterns, in order.
    pub closed spec fn globs(&self) -> Seq<Seq<char>> {
        set_globs(self.globs)
    }

    /// The literal rules, in order.
    pub closed spec fn rules(&self) -> Seq<(Seq<char>, bool)> {
        self.literals@.map_values(|r: LiteralRule| r@)
    }

    /// Classifies `patterns`; `names_directory[i]` tells whether
    /// `patterns[i]` names an existing directory of the package.
    pub fn new(patterns: &Vec<String>, names_directory: &Vec<bool>) -> (r: Result<
        ExclusionMatcher,
        ConfigError,
    >)
        requires
            patterns@.len() == names_directory@.len(),
        ensures
            r matches Ok(m) ==> m.globs() == glob_patterns(string_views(patterns@)) && m.rules()
                == literal_rules(string_views(patterns@), names_directory@),
            r is Ok <==> all_globs_accepted(glob_patterns(string_views(patterns@))) && set_accepts(
                glob_patterns(string_views(patterns@)),
            ),
            r matches Err(e) ==> (e matches ConfigError::InvalidPattern { pattern: p, .. }
                && glob_patterns(string_views(patterns@)).contains(p@) && !glob_accepts(p@))
                || e is InvalidPatternSet,
            r matches Err(ConfigError::InvalidPatternSet { .. }) ==> !set_accepts(
                glob_patterns(string_views(patterns@)),
            ),
            glob_patterns(string_views(patterns@)).len() == 0 ==> r is Ok,
    {
        let ghost ps = string_views(patterns@);
        let mut builder = new_builder();
        let mut literals: Vec<LiteralRule> = Vec::new();
        let mut i: usize = 0;
        while i < patterns.len()
            invariant
                patterns@.len() == names_directory@.len(),
                ps == string_views(patterns@),
                i <= patterns@.len(),
                builder_globs(builder) == glob_patterns(ps.take(i as int)),
                all_globs_accepted(builder_globs(builder)),
                literals@.map_values(|r: LiteralRule| r@) == literal_rules(
                    ps.take(i as int),
                    names_directory@.take(i as int),
                ),
            decreases patterns@.len() - i,
        {
            let p = &patterns[i];
            let ghost before = ps.take(i as int);
            proof {
                assert(ps.take(i + 1).drop_last() =~= before);
                assert(names_directory@.take(i + 1).drop_last() =~= names_directory@.take(
                    i as int,
                ));
                assert(ps.take(i + 1).last() == p@);
            }
            if has_glob_metacharacters(p.as_str()) {
                match add_glob(&mut builder, p.as_str()) {
                    Ok(()) => {},
                    Err(e) => {
                        proof {
                            assert(glob_patterns(ps.take(i + 1)).last() == p@);
                            lemma_glob_patterns_prefix(ps, i as int + 1);
                            assert(glob_patterns(ps).contains(p@));
                        }
                        let reason = glob_error_text(&e);
                        return Err(ConfigError::InvalidPattern { pattern: p.clone(), reason });
                    },
                }
            } else {
                let ghost lits = literals@;
                let rule = Self::make_literal(p.as_str(), names_directory[i]);
                literals.push(rule);
                assert(literals@.map_values(|r: LiteralRule| r@) =~= lits.map_values(
                    |r: LiteralRule| r@,
                ).push(rule@));
            }
            i = i + 1;
        }
        assert(ps.take(i as int) =~= ps);
        assert(names_directory@.take(i as int) =~= names_directory@);
        match build_set(&builder) {
            Ok(globs) => Ok(ExclusionMatcher { globs, literals }),
            Err(e) => Err(ConfigError::InvalidPatternSet { reason: glob_error_text(&e) }),
        }
    }

    fn make_literal(p: &str, names_dir: bool) -> (r: LiteralRule)
        ensures
            r@ == literal_rule(p@, names_dir),
    {
        let cs = chars_of(p);
        let mut n: usize = cs.len();
        assert(cs@.take(n as int) =~= cs@);
        while n > 0 && cs[n - 1] == '/'
            invariant
                cs@ == p@,
                n <= cs@.len(),
                trim_slashes(p@) == trim_slashes(cs@.take(n as int)),
            decreases n,
        {
            assert(cs@.take(n as int).drop_last() =~= cs@.take(n - 1));
            n = n - 1;
        }
        assert(trim_slashes(cs@.take(n as int)) == cs@.take(n as int));
        let ends_with_slash = cs.len() > 0 && cs[cs.len() - 1] == '/';
        let mut path: Vec<char> = Vec::new();
        let mut k: usize = 0;
        while k < n
            invariant
                cs@ == p@,
                k <= n <= cs@.len(),
                path@ == cs@.take(k as int),
            decreases n - k,
        {
            path.push(cs[k]);
            assert(cs@.take(k + 1) =~= cs@.take(k as int).push(cs@[k as int]));
            k = k + 1;
        }
        LiteralRule { path, directory: names_dir || ends_with_slash }
    }

    /// Whether the `/`-separated path, relative to the package root, is excluded.
    pub fn is_excluded(&self, relative_path: &str) -> (r: bool)
        ensures
            r == excludes(self.globs(), self.rules(), relative_path@),
    {
        if set_is_match(&self.globs, relative_path) {
            return true;
        }
        let pv = chars_of(relative_path);
        let mut i: usize = 0;
        while i < self.literals.len()
            invariant
                pv@ == relative_path@,
                i <= self.literals@.len(),
                forall|k: int|
                    0 <= k < i ==> !rule_excludes(#[trigger] self.rules()[k], relative_path@),
            decreases self.literals@.len() - i,
        {
            let rule = &self.literals[i];
            let n = rule.path.len();
            let hit = pv.len() >= n && matches_at(&pv, 0, &rule.path) && (pv.len() == n || (
            rule.directory && pv[n] == '/'));
            assert(self.rules()[i as int] == rule@);
            if hit {
                proof {
                    if pv@.len() == n {
                        assert(pv@.subrange(0, n as int) =~= pv@);
                    }
                    assert(rule_excludes(self.rules()[i as int], relative_path@));
                }
                return true;
            }
            proof {
                if relative_path@ == rule.path@ {
                    assert(pv@.subrange(0, n as int) =~= pv@);
                }
            }
            i = i + 1;
        }
        false
    }
}

proof fn lemma_glob_patterns_prefix(ps: Seq<Seq<char>>, n: int)
    requires
        0 <= n <= ps.len(),
    ensures
        forall|p: Seq<char>| glob_patterns(ps.take(n)).contains(p) ==> glob_patterns(ps).contains(p),
    decreases ps.len() - n,
{
    if n < ps.len() {
        lemma_glob_patterns_prefix(ps, n + 1);
        assert(ps.take(n + 1).drop_last() =~= ps.take(n));
        let g = glob_patterns(ps.take(n));
        assert forall|p: Seq<char>| g.contains(p) implies glob_patterns(ps.take(n + 1)).contains(p) by {
            let k = choose|k: int| 0 <= k < g.len() && g[k] == p;
            if is_glob_pattern(ps.take(n + 1).last()) {
                assert(glob_patterns(ps.take(n + 1)) == g.push(ps.take(n + 1).last()));
                assert(glob_patterns(ps.take(n + 1))[k] == p);
            }
        }
    } else {
        assert(ps.take(n) =~= ps);
    }
}

} // verus!
