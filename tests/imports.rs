use typst_pack::error::ConfigError;
use typst_pack::imports::{rewrite_imports, rewrite_package_imports};

#[test]
fn ascending_self_import_is_qualified() {
    let r = rewrite_imports("#import \"../main.typ\": foo", "mypkg", "1.0.0", "main.typ");
    assert_eq!(r, "#import \"@preview/mypkg:1.0.0\": foo");
}

#[test]
fn other_file_is_left_alone() {
    let src = "#import \"../../other.typ\"";
    assert_eq!(rewrite_imports(src, "mypkg", "1.0.0", "main.typ"), src);
}

#[test]
fn several_levels_and_whitespace() {
    let r = rewrite_imports("#import\t \"../../../main.typ\": *\n", "p", "0.2.0", "main.typ");
    assert_eq!(r, "#import \"@preview/p:0.2.0\": *\n");
}

#[test]
fn descending_or_local_paths_are_left_alone() {
    for src in [
        "#import \"main.typ\": a",
        "#import \"./main.typ\": a",
        "#import \"../sub/main.typ\": a",
        "#import \"sub/../main.typ\": a",
        "#import\"../main.typ\"",
        "#import \"../main.typx\"",
    ] {
        assert_eq!(rewrite_imports(src, "p", "1.0.0", "main.typ"), src);
    }
}

#[test]
fn specifier_inside_quotes_is_kept() {
    let r = rewrite_imports("#import \"../lib.typ: x, y\" rest", "p", "1.0.0", "lib.typ");
    assert_eq!(r, "#import \"@preview/p:1.0.0: x, y\" rest");
}

#[test]
fn every_import_in_a_file_is_rewritten() {
    let src = "= Title\n#import \"../main.typ\": a\ntext\n#import \"../../main.typ\"\n";
    let r = rewrite_imports(src, "cards", "2.1.0", "main.typ");
    assert_eq!(
        r,
        "= Title\n#import \"@preview/cards:2.1.0\": a\ntext\n#import \"@preview/cards:2.1.0\"\n"
    );
}

#[test]
fn rewriting_twice_changes_nothing_more() {
    let src = "#import \"../main.typ\": foo\n#import \"../../other.typ\"\n";
    let once = rewrite_imports(src, "mypkg", "1.0.0", "main.typ");
    let twice = rewrite_imports(&once, "mypkg", "1.0.0", "main.typ");
    assert_eq!(once, twice);
}

#[test]
fn qualified_file_is_unchanged() {
    let src = "#import \"@preview/mypkg:1.0.0\": foo\nbody ü\n";
    assert_eq!(rewrite_imports(src, "mypkg", "1.0.0", "main.typ"), src);
}

#[test]
fn entrypoint_path_is_reduced_to_its_file_name() {
    let r = rewrite_package_imports("#import \"../lib.typ\"", "p", "1.0.0", "src/lib.typ");
    assert_eq!(r.unwrap(), "#import \"@preview/p:1.0.0\"");
}

#[test]
fn entrypoint_without_file_name_is_rejected() {
    match rewrite_package_imports("x", "p", "1.0.0", "..") {
        Err(ConfigError::InvalidEntrypoint { entrypoint }) => assert_eq!(entrypoint, ".."),
        other => panic!("unexpected: {:?}", other),
    }
}

#[test]
fn specifier_holding_an_import_is_kept_verbatim() {
    let src = "#import \"../main.typ:#import \"../main.typ\"";
    let once = rewrite_imports(src, "p", "1.0.0", "main.typ");
    assert_eq!(once, "#import \"@preview/p:1.0.0:#import \"../main.typ\"");
}
