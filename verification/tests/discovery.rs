use compiletest::{default_config, is_test, make_tests, Config, FsEntry, FsNode, Mode};

fn file(name: &str) -> FsEntry {
    FsEntry { name: name.to_string(), node: FsNode::File }
}

fn dir(name: &str, entries: Vec<FsEntry>) -> FsEntry {
    FsEntry { name: name.to_string(), node: FsNode::Dir(entries) }
}

fn config_with_mode(mode: Mode) -> Config {
    let mut c = default_config("build".to_string(), "x86_64-unknown-linux-gnu".to_string());
    c.mode = mode;
    c
}

#[test]
fn qualifying_file_names() {
    assert!(is_test(&"foo.rs".to_string()));
    assert!(!is_test(&".foo.rs".to_string()));
    assert!(!is_test(&"foo.txt".to_string()));
}

#[test]
fn reserved_prefixes_never_qualify() {
    assert!(!is_test(&"#foo.rs".to_string()));
    assert!(!is_test(&"~foo.rs".to_string()));
    assert!(!is_test(&".rs".to_string()));
    assert!(!is_test(&"rs".to_string()));
}

#[test]
fn collector_emits_one_unit_per_qualifying_file() {
    let config = config_with_mode(Mode::RunPass);
    let root = FsNode::Dir(vec![
        file("foo.rs"),
        file(".foo.rs"),
        file("#bar.rs"),
        file("~baz.rs"),
        file("notes.txt"),
        dir("sub", vec![file("inner.rs")]),
        dir("auxiliary", vec![file("helper.rs")]),
    ]);
    let (units, dirs) = make_tests(&config, &root);
    assert_eq!(units.len(), 2);
    assert_eq!(units[0].file, "tests/run-pass/foo.rs");
    assert_eq!(units[0].base, "tests/run-pass");
    assert_eq!(units[0].relative_dir, "");
    assert_eq!(units[1].file, "tests/run-pass/sub/inner.rs");
    assert_eq!(units[1].relative_dir, "sub");
    assert_eq!(dirs, vec!["".to_string(), "sub".to_string(), "auxiliary".to_string()]);
}

#[test]
fn ignored_subtree_contributes_nothing() {
    let config = config_with_mode(Mode::RunPass);
    let root = FsNode::Dir(vec![
        file("a.rs"),
        dir("skipme", vec![file("compiletest-ignore-dir"), file("x.rs")]),
        dir("keep", vec![file("y.rs")]),
    ]);
    let (units, dirs) = make_tests(&config, &root);
    assert_eq!(units.len(), 2);
    assert_eq!(units[0].file, "tests/run-pass/a.rs");
    assert_eq!(units[1].file, "tests/run-pass/keep/y.rs");
    assert_eq!(dirs, vec!["".to_string(), "keep".to_string()]);
}

#[test]
fn collector_is_idempotent() {
    let config = config_with_mode(Mode::RunPass);
    let root = FsNode::Dir(vec![
        file("one.rs"),
        dir("nested", vec![file("two.rs"), dir("deeper", vec![file("three.rs")])]),
    ]);
    let (units_a, dirs_a) = make_tests(&config, &root);
    let (units_b, dirs_b) = make_tests(&config, &root);
    assert_eq!(units_a.len(), units_b.len());
    for (a, b) in units_a.iter().zip(units_b.iter()) {
        assert_eq!(a.file, b.file);
        assert_eq!(a.base, b.base);
        assert_eq!(a.relative_dir, b.relative_dir);
    }
    assert_eq!(dirs_a, dirs_b);
}

#[test]
fn run_make_takes_directory_as_unit() {
    let config = config_with_mode(Mode::RunMake);
    let root = FsNode::Dir(vec![
        dir("proj", vec![file("Makefile"), file("other.rs")]),
        file("plain.rs"),
    ]);
    let (units, dirs) = make_tests(&config, &root);
    assert_eq!(units.len(), 2);
    assert_eq!(units[0].file, "tests/run-pass/proj");
    assert_eq!(units[0].relative_dir, "");
    assert_eq!(units[1].file, "tests/run-pass/plain.rs");
    assert_eq!(dirs, vec!["".to_string()]);
}

#[test]
fn run_make_nested_directory_unit_keeps_parent_dir() {
    let config = config_with_mode(Mode::RunMake);
    let root = FsNode::Dir(vec![dir(
        "group",
        vec![dir("proj", vec![file("Makefile")])],
    )]);
    let (units, dirs) = make_tests(&config, &root);
    assert_eq!(units.len(), 1);
    assert_eq!(units[0].file, "tests/run-pass/group/proj");
    assert_eq!(units[0].relative_dir, "group");
    assert_eq!(dirs, vec!["".to_string(), "group".to_string()]);
}

#[test]
fn ignore_marker_beats_build_marker() {
    let config = config_with_mode(Mode::RunMake);
    let root = FsNode::Dir(vec![dir(
        "proj",
        vec![file("Makefile"), file("compiletest-ignore-dir")],
    )]);
    let (units, dirs) = make_tests(&config, &root);
    assert_eq!(units.len(), 0);
    assert_eq!(dirs, vec!["".to_string()]);
}

#[test]
fn files_in_makefile_mode_still_collected_without_marker() {
    let config = config_with_mode(Mode::RunMake);
    let root = FsNode::Dir(vec![file("solo.rs")]);
    let (units, _dirs) = make_tests(&config, &root);
    assert_eq!(units.len(), 1);
    assert_eq!(units[0].file, "tests/run-pass/solo.rs");
}

#[test]
fn same_file_name_in_sibling_directories_gives_two_distinct_units() {
    let config = config_with_mode(Mode::RunPass);
    let root = FsNode::Dir(vec![
        dir("a", vec![file("t.rs")]),
        dir("b", vec![file("t.rs")]),
    ]);
    let (units, _dirs) = make_tests(&config, &root);
    assert_eq!(units.len(), 2);
    assert_eq!(units[0].file, "tests/run-pass/a/t.rs");
    assert_eq!(units[0].relative_dir, "a");
    assert_eq!(units[1].file, "tests/run-pass/b/t.rs");
    assert_eq!(units[1].relative_dir, "b");
}

#[test]
fn directory_named_like_a_test_is_walked_not_emitted() {
    let config = config_with_mode(Mode::RunPass);
    let root = FsNode::Dir(vec![dir("odd.rs", vec![file("real.rs")])]);
    let (units, dirs) = make_tests(&config, &root);
    assert_eq!(units.len(), 1);
    assert_eq!(units[0].file, "tests/run-pass/odd.rs/real.rs");
    assert_eq!(units[0].relative_dir, "odd.rs");
    assert_eq!(dirs, vec!["".to_string(), "odd.rs".to_string()]);
}
