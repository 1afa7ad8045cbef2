use detox::{chars_of, detoxed_file_name, plan_rename, sanitize_chars, sanitize_stem, Detoxer};

#[test]
fn sanitizes_the_example_name() {
    assert_eq!(
        detoxed_file_name("---bad__-file     name____-.mp4"),
        "bad-file-name.mp4"
    );
}

#[test]
fn keeps_an_already_sanitized_name() {
    assert_eq!(detoxed_file_name("good-file.jpeg"), "good-file.jpeg");
    assert_eq!(plan_rename("good-file.jpeg"), None);
}

#[test]
fn plans_a_rename_for_a_messy_name() {
    assert_eq!(
        plan_rename("---bad__-file     name____-.mp4"),
        Some("bad-file-name.mp4".to_string())
    );
}

#[test]
fn drops_characters_outside_ascii() {
    assert_eq!(sanitize_stem("h\u{e9}llo w\u{f6}rld"), "hllo-wrld");
}

#[test]
fn collapses_separator_runs() {
    assert_eq!(sanitize_stem("a \t\n b"), "a-b");
    assert_eq!(sanitize_stem("a_-_b"), "a-b");
}

#[test]
fn removes_commas() {
    assert_eq!(sanitize_stem("a,b,,c"), "abc");
}

#[test]
fn trims_hyphen_runs_at_the_edges() {
    assert_eq!(sanitize_stem("--a--"), "a");
    assert_eq!(sanitize_stem("-,a,-"), "a");
    assert_eq!(sanitize_stem("---"), "");
    assert_eq!(sanitize_stem(""), "");
}

#[test]
fn resanitizing_a_sanitized_stem_changes_nothing() {
    let once = sanitize_stem("---bad__-file     name____-");
    let twice = sanitize_stem(&once);
    assert_eq!(once, twice);
    assert_eq!(once, "bad-file-name");
}

#[test]
fn a_comma_between_hyphens_needs_a_second_pass() {
    // Removing the comma abuts the two hyphens; one pass leaves the pair,
    // the next collapses it.  This is the one way a single pass is not
    // idempotent.
    assert_eq!(sanitize_stem("a-,-b"), "a--b");
    assert_eq!(sanitize_stem("a--b"), "a-b");
    assert_eq!(sanitize_stem(&sanitize_stem(&sanitize_stem("a-,-b"))), sanitize_stem(&sanitize_stem("a-,-b")));
}

#[test]
fn preserves_the_extension_verbatim() {
    assert_eq!(detoxed_file_name("  weird  .TAR.GZ"), "weird-.TAR.GZ");
    assert_eq!(detoxed_file_name("a b."), "a-b.");
    assert_eq!(detoxed_file_name("a b"), "a-b");
}

#[test]
fn a_leading_dot_starts_no_extension() {
    assert_eq!(detoxed_file_name(".bash rc"), ".bash-rc");
    assert_eq!(detoxed_file_name(".bashrc"), ".bashrc");
}

#[test]
fn the_detoxer_applies_the_same_rules() {
    let detoxer = Detoxer::new();
    assert_eq!(detoxer.detox_file_name("some,   file"), "some-file");
    assert_eq!(detoxer.detox_file_name("good-file"), "good-file");
}

#[test]
fn sanitize_chars_matches_sanitize_stem() {
    let v = chars_of("__a,b  c__");
    let r: String = sanitize_chars(&v).into_iter().collect();
    assert_eq!(r, sanitize_stem("__a,b  c__"));
    assert_eq!(r, "ab-c");
}
