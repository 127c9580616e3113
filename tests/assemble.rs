use typst_pack::assemble::{entry_action, plan_entries, EntryAction, SourceEntry};
use typst_pack::exclude::ExclusionMatcher;

fn entry(path: &str, is_dir: bool) -> SourceEntry {
    SourceEntry { path: path.to_string(), is_dir }
}

#[test]
fn package_with_drafts_and_temporaries() {
    let patterns = vec!["drafts/".to_string(), "*.tmp".to_string()];
    let m = ExclusionMatcher::new(&patterns, &vec![true, false]).unwrap();
    let entries = vec![
        entry("", true),
        entry("drafts", true),
        entry("drafts/old.typ", false),
        entry("main.typ", false),
        entry("notes.tmp", false),
        entry("typst.toml", false),
    ];
    let plan = plan_entries(&m, &entries);
    assert_eq!(
        plan,
        vec![
            EntryAction::CreateDir,
            EntryAction::Skip,
            EntryAction::Skip,
            EntryAction::RewriteImports,
            EntryAction::Skip,
            EntryAction::WriteManifest,
        ]
    );
}

#[test]
fn file_kinds_get_their_actions() {
    let m = ExclusionMatcher::new(&vec![], &vec![]).unwrap();
    assert_eq!(entry_action(&m, "lib/util.typ", false), EntryAction::RewriteImports);
    assert_eq!(entry_action(&m, ".typ", false), EntryAction::CopyFile);
    assert_eq!(entry_action(&m, "lib/.typ", false), EntryAction::CopyFile);
    assert_eq!(entry_action(&m, "image.png", false), EntryAction::CopyFile);
    assert_eq!(entry_action(&m, "lib", true), EntryAction::CreateDir);
    assert_eq!(entry_action(&m, "typst.toml", false), EntryAction::WriteManifest);
    assert_eq!(entry_action(&m, "sub/typst.toml", false), EntryAction::CopyFile);
}

#[test]
fn plan_follows_visit_order() {
    let m = ExclusionMatcher::new(&vec!["*.tmp".to_string()], &vec![false]).unwrap();
    let a = plan_entries(&m, &vec![entry("a.tmp", false), entry("b.typ", false)]);
    let b = plan_entries(&m, &vec![entry("b.typ", false), entry("a.tmp", false)]);
    assert_eq!(a, vec![EntryAction::Skip, EntryAction::RewriteImports]);
    assert_eq!(b, vec![EntryAction::RewriteImports, EntryAction::Skip]);
}
