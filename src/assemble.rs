//! What the tree assembler does with each entry of the package tree.
use vstd::prelude::*;
use crate::exclude::{
    excludes,
    glob_patterns,
    is_glob_pattern,
    literal_rule,
    literal_rules,
    rule_excludes,
    trim_slashes,
    ExclusionMatcher,
};
use crate::text::{chars_of, is_at, matches_at};

verus! {

/// The treatment of one entry of the package tree.
#[derive(PartialEq, Eq, Structural, Debug, Clone, Copy)]
pub enum EntryAction {
    /// Excluded: nothing is written.
    Skip,
    /// A directory: created in the output.
    CreateDir,
    /// The package manifest: written without its schema lines.
    WriteManifest,
    /// A `.typ` source file: written with its self-imports qualified.
    RewriteImports,
    /// Any other file: copied byte for byte.
    CopyFile,
}

/// A file or directory found in the package tree, by its `/`-separated path
/// relative to the package root.
pub struct SourceEntry {
    pub path: String,
    pub is_dir: bool,
}

impl View for SourceEntry {
    type V = (Seq<char>, bool);

    open spec fn view(&self) -> (Seq<char>, bool) {
        (self.path@, self.is_dir)
    }
}

/// The last component of `p` has the extension `typ`: it ends with `.typ`
/// and has a non-empty stem.
pub open spec fn has_typ_extension(p: Seq<char>) -> bool {
    &&& p.len() > 4
    &&& p.subrange(p.len() - 4, p.len() as int) == ".typ"@
    &&& p[p.len() - 5] != '/'
}

/// The action for the entry at `path` under the given exclusion rules.
pub open spec fn action_for(
    globs: Seq<Seq<char>>,
    rules: Seq<(Seq<char>, bool)>,
    path: Seq<char>,
    is_dir: bool,
) -> EntryAction {
    if excludes(globs, rules, path) {
        EntryAction::Skip
    } else if is_dir {
        EntryAction::CreateDir
    } else if path == "typst.toml"@ {
        EntryAction::WriteManifest
    } else if has_typ_extension(path) {
        EntryAction::RewriteImports
    } else {
        EntryAction::CopyFile
    }
}

/// The actions for a sequence of entries, one for each, in the same order.
pub open spec fn plan(
    globs: Seq<Seq<char>>,
    rules: Seq<(Seq<char>, bool)>,
    entries: Seq<(Seq<char>, bool)>,
) -> Seq<EntryAction> {
    entries.map_values(|e: (Seq<char>, bool)| action_for(globs, rules, e.0, e.1))
}

/// The action for the entry at `relative_path`.
pub fn entry_action(m: &ExclusionMatcher, relative_path: &str, is_dir: bool) -> (r: EntryAction)
    ensures
        r == action_for(m.globs(), m.rules(), relative_path@, is_dir),
{
    if m.is_excluded(relative_path) {
        return EntryAction::Skip;
    }
    if is_dir {
        return EntryAction::CreateDir;
    }
    let pv = chars_of(relative_path);
    let manifest = chars_of("typst.toml");
    let ext = chars_of(".typ");
    proof {
        reveal_strlit("typst.toml");
        reveal_strlit(".typ");
    }
    let n = pv.len();
    if n == 10 && matches_at(&pv, 0, &manifest) {
        assert(pv@.subrange(0, 10) =~= pv@);
        return EntryAction::WriteManifest;
    }
    proof {
        if pv@ == manifest@ {
            assert(pv@.subrange(0, 10) =~= pv@);
        }
    }
    if n > 4 && matches_at(&pv, n - 4, &ext) && pv[n - 5] != '/' {
        EntryAction::RewriteImports
    } else {
        EntryAction::CopyFile
    }
}

/// The actions for the entries of a walk, one for each, in the same order.
pub fn plan_entries(m: &ExclusionMatcher, entries: &Vec<SourceEntry>) -> (r: Vec<EntryAction>)
    ensures
        r@ == plan(m.globs(), m.rules(), entries@.map_values(|e: SourceEntry| e@)),
{
    let ghost es = entries@.map_values(|e: SourceEntry| e@);
    let mut r: Vec<EntryAction> = Vec::new();
    let mut i: usize = 0;
    while i < entries.len()
        invariant
            es == entries@.map_values(|e: SourceEntry| e@),
            i <= entries@.len(),
            r@ == plan(m.globs(), m.rules(), es.take(i as int)),
        decreases entries@.len() - i,
    {
        let e = &entries[i];
        let a = entry_action(m, e.path.as_str(), e.is_dir);
        r.push(a);
        assert(plan(m.globs(), m.rules(), es.take(i + 1)) =~= plan(
            m.globs(),
            m.rules(),
            es.take(i as int),
        ).push(a));
        i = i + 1;
    }
    assert(es.take(i as int) =~= es);
    r
}

/// Whether an entry is excluded depends on its own path and the rules alone,
/// so visiting the entries in another order gives the same action to each.
pub proof fn lemma_plan_order_independent(
    globs: Seq<Seq<char>>,
    rules: Seq<(Seq<char>, bool)>,
    visited: Seq<(Seq<char>, bool)>,
    reordered: Seq<(Seq<char>, bool)>,
    order: Seq<int>,
)
    requires
        reordered.len() == order.len(),
        forall|k: int|
            0 <= k < order.len() ==> 0 <= #[trigger] order[k] < visited.len() && reordered[k]
                == visited[order[k]],
    ensures
        forall|k: int|
            0 <= k < order.len() ==> #[trigger] plan(globs, rules, reordered)[k] == plan(
                globs,
                rules,
                visited,
            )[order[k]],
{
}

/// A literal pattern that names a directory excludes that directory and every
/// path below it, and nothing else: not a sibling whose name merely starts
/// with the same text.
pub proof fn lemma_directory_rule(d: Seq<char>, path: Seq<char>)
    requires
        !is_glob_pattern(d),
    ensures
        excludes(glob_patterns(seq![d]), literal_rules(seq![d], seq![true]), path) <==> (path
            == trim_slashes(d) || (path.len() > trim_slashes(d).len() && is_at(
            path,
            0,
            trim_slashes(d),
        ) && path[trim_slashes(d).len() as int] == '/')),
{
    let ps = seq![d];
    assert(ps.drop_last() =~= Seq::<Seq<char>>::empty());
    assert(seq![true].drop_last() =~= Seq::<bool>::empty());
    assert(ps.last() == d);
    assert(seq![true].last() == true);
    assert(glob_patterns(ps.drop_last()) == Seq::<Seq<char>>::empty());
    assert(literal_rules(ps.drop_last(), seq![true].drop_last()) == Seq::<(Seq<char>, bool)>::empty());
    assert(glob_patterns(ps) == Seq::<Seq<char>>::empty());
    let rules = literal_rules(ps, seq![true]);
    assert(rules =~= seq![literal_rule(d, true)]);
    assert(rules[0] == literal_rule(d, true));
    assert(rule_excludes(rules[0], path) ==> excludes(Seq::empty(), rules, path));
    assert(excludes(Seq::empty(), rules, path) ==> rule_excludes(rules[0], path));
}

} // verus!
