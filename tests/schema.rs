use typst_pack::schema::strip_schema_lines;

#[test]
fn schema_line_is_dropped_and_others_kept() {
    let src = "\n  #:schema https://example/schema.json\n\n[package]\nname = \"x\"\n\n";
    assert_eq!(strip_schema_lines(src), "\n\n[package]\nname = \"x\"\n");
}

#[test]
fn carriage_returns_of_line_endings_are_dropped() {
    assert_eq!(strip_schema_lines("a\r\n#:schema s\r\nb\r\n"), "a\nb");
}

#[test]
fn text_without_schema_lines_keeps_every_line() {
    assert_eq!(strip_schema_lines("a\nb\n\nc"), "a\nb\n\nc");
    assert_eq!(strip_schema_lines(""), "");
    assert_eq!(strip_schema_lines("# comment\nx = 1 #:schema"), "# comment\nx = 1 #:schema");
}

#[test]
fn only_schema_lines_give_empty_text() {
    assert_eq!(strip_schema_lines("#:schema a\n\t#:schema b\n"), "");
}
