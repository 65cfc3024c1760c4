use cirrus::document::DiskDocument;

fn patched(disk: &str, canonical: &str) -> String {
    let mut doc = DiskDocument::parse(disk).unwrap();
    let canon = DiskDocument::parse(canonical).unwrap();
    doc.patch(&canon);
    doc.to_text()
}

#[test]
fn parse_round_trips_exactly() {
    let text = "# top comment\n\nname = \"a\"   # keep\n[table]\n  key = 42\n\n[[arr]]\nx = true\n";
    let doc = DiskDocument::parse(text).unwrap();
    assert_eq!(doc.to_text(), text);
}

#[test]
fn formatting_preserved_when_nothing_differs() {
    let disk = "# a comment\nname = \"a\" # keep me\nport = 8080\n\n[table]\nflag = true\n";
    let canonical = "name = \"a\"\nport = 8080\n[table]\nflag = true\n";
    assert_eq!(patched(disk, canonical), disk);
}

#[test]
fn end_to_end_scenario() {
    let disk = "name = \"a\" # keep me\nport = 8080";
    let canonical = "name = \"b\"\nport = 8080";
    assert_eq!(patched(disk, canonical), "name = \"b\" # keep me\nport = 8080");
}

#[test]
fn leaf_only_overwrite_keeps_comment_and_siblings() {
    let disk = "[a]\n# comment above the key\nb = 1\nc = \"side\"\n";
    let canonical = "[a]\nb = 2\nc = \"side\"\n";
    assert_eq!(
        patched(disk, canonical),
        "[a]\n# comment above the key\nb = 2\nc = \"side\"\n"
    );
}

#[test]
fn missing_key_is_synthesized() {
    let disk = "name = \"a\"";
    let canonical = "name = \"a\"\nport = 8080";
    assert_eq!(patched(disk, canonical), "name = \"a\"\nport = 8080");
}

#[test]
fn missing_table_is_synthesized_at_the_end() {
    let disk = "name = \"a\"";
    let canonical = "name = \"a\"\n[net]\nport = 1";
    assert_eq!(patched(disk, canonical), "name = \"a\"\n[net]\nport = 1");
}

#[test]
fn missing_root_key_is_inserted_before_the_first_table() {
    let disk = "a = 1\n# trailing root comment\n[t]\nx = 1\n";
    let canonical = "a = 1\nb = 2\n[t]\nx = 1\n";
    assert_eq!(patched(disk, canonical), "a = 1\n# trailing root comment\nb = 2\n[t]\nx = 1\n");
}

#[test]
fn missing_key_lands_in_its_own_table_section() {
    let disk = "[t]\nx = 1\n# end of t\n[u]\ny = 2\n";
    let canonical = "[t]\nx = 1\nz = 3\n[u]\ny = 2\n";
    assert_eq!(patched(disk, canonical), "[t]\nx = 1\n# end of t\nz = 3\n[u]\ny = 2\n");
}

#[test]
fn type_mismatch_is_overwritten() {
    let disk = "port = \"8080\" # stored as a string\n";
    let canonical = "port = 8080\n";
    assert_eq!(patched(disk, canonical), "port = 8080 # stored as a string\n");
}

#[test]
fn patching_twice_equals_patching_once() {
    let disk = "name = \"a\" # keep\nport = 1\n[t]\nx = \"old\"\n";
    let canonical = "name = \"b\"\nport = 2\nnew_key = true\n[t]\nx = \"new\"\n";
    let once = patched(disk, canonical);
    let twice = patched(&once, canonical);
    assert_eq!(twice, once);
}

#[test]
fn unchanged_string_in_other_quoting_is_left_alone() {
    let disk = "name = 'a' # literal quoting\n";
    let canonical = "name = \"a\"\n";
    assert_eq!(patched(disk, canonical), disk);
}

#[test]
fn unknown_disk_keys_are_left_alone() {
    let disk = "known = 1\nlegacy_key = \"hand added\"\n";
    let canonical = "known = 2\n";
    assert_eq!(patched(disk, canonical), "known = 2\nlegacy_key = \"hand added\"\n");
}

#[test]
fn array_of_tables_matches_positionally() {
    let disk = "[[srv]]\nhost = \"x\" # first\n[[srv]]\nhost = \"y\" # second\n";
    let canonical = "[[srv]]\nhost = \"x\"\n[[srv]]\nhost = \"z\"\n";
    assert_eq!(
        patched(disk, canonical),
        "[[srv]]\nhost = \"x\" # first\n[[srv]]\nhost = \"z\" # second\n"
    );
}

#[test]
fn booleans_and_floats_and_datetimes_compare_by_kind() {
    let disk = "flag = true\nratio = 0.5\nwhen = 1979-05-27T07:32:00Z\n";
    let canonical = "flag = false\nratio = 0.5\nwhen = 1979-05-27T07:32:00Z\n";
    assert_eq!(
        patched(disk, canonical),
        "flag = false\nratio = 0.5\nwhen = 1979-05-27T07:32:00Z\n"
    );
}

#[test]
fn integer_forms_compare_by_value() {
    // 1_000 and 1000 hold the same integer, so the formatting survives.
    let disk = "big = 1_000 # separated\n";
    let canonical = "big = 1000\n";
    assert_eq!(patched(disk, canonical), disk);
}

#[test]
fn escaped_strings_compare_decoded() {
    let disk = "msg = \"a\\nb\"\n";
    let canonical = "msg = \"a\\nb\"\n";
    assert_eq!(patched(disk, canonical), disk);
}

#[test]
fn multi_line_values_are_rejected_at_parse() {
    let err = DiskDocument::parse("xs = [\n  1,\n  2,\n]\n").unwrap_err();
    assert_eq!(err.line, 0);
    assert!(DiskDocument::parse("s = \"unterminated\n").is_err());
    assert!(DiskDocument::parse("just some prose\n").is_err());
}

#[test]
fn inline_arrays_compare_by_text() {
    let disk = "xs = [1, 2] # note\n";
    let canonical = "xs = [1, 2]\n";
    assert_eq!(patched(disk, canonical), disk);

    let changed = patched("xs = [1, 2] # note\n", "xs = [1, 3]\n");
    assert_eq!(changed, "xs = [1, 3] # note\n");
}

#[test]
fn dotted_keys_share_the_table_path_space() {
    // `a.b = 1` at root and `b = 1` under `[a]` are the same leaf.
    let disk = "a.b = 1 # dotted\n";
    let canonical = "[a]\nb = 2\n";
    assert_eq!(patched(disk, canonical), "a.b = 2 # dotted\n");

    let disk = "[a]\nb = 1 # sectioned\n";
    let canonical = "a.b = 2\n";
    assert_eq!(patched(disk, canonical), "[a]\nb = 2 # sectioned\n");
}

#[test]
fn whitespace_around_keys_and_dots_is_tolerated() {
    let disk = "  a . b   =   1   # spaced out\n";
    let canonical = "[a]\nb = 2\n";
    assert_eq!(patched(disk, canonical), "  a . b   =   2   # spaced out\n");
}

#[test]
fn rejected_lines_make_the_parse_fail() {
    // Trailing garbage after a value.
    assert!(DiskDocument::parse("k = \"a\" garbage\n").is_err());
    // A header without its closing bracket.
    assert!(DiskDocument::parse("[table\n").is_err());
    // A key with characters outside the bare set.
    assert!(DiskDocument::parse("\"quoted key\" = 1\n").is_err());
    // The error reports the first offending line.
    let err = DiskDocument::parse("ok = 1\nbad line\n").unwrap_err();
    assert_eq!(err.line, 1);
}

#[test]
fn empty_values_are_tolerated_and_replaced() {
    let disk = "k = # waiting for a value\n";
    let canonical = "k = 5\n";
    assert_eq!(patched(disk, canonical), "k = 5# waiting for a value\n");
}

#[test]
fn crowded_comments_stay_with_their_values() {
    let disk = "k = 1# tight comment\n";
    let canonical = "k = 2\n";
    assert_eq!(patched(disk, canonical), "k = 2# tight comment\n");
}
