use shiika::loader::{parse_require, resolve_requires, with_file_name};

#[test]
fn parse_require_takes_the_quoted_name() {
    assert_eq!(parse_require("require \"foo.sk\"", "main.sk"), "foo.sk");
    assert_eq!(parse_require("  require   \"dir/bar.sk\"  \t", "main.sk"), "dir/bar.sk");
    assert_eq!(parse_require("require baz.sk", "main.sk"), "baz.sk");
}

#[test]
fn parse_require_finds_the_file_next_to_the_requirer() {
    assert_eq!(parse_require("require \"foo.sk\"", "src/main.sk"), "src/foo.sk");
}

#[test]
fn resolve_requires_reads_the_leading_require_lines() {
    let content = "require \"a.sk\"\r\n  require \"b.sk\"\nclass A\nrequire \"c.sk\"\n";
    assert_eq!(resolve_requires("main.sk", content), vec!["a.sk".to_string(), "b.sk".to_string()]);
}

#[test]
fn resolve_requires_against_the_directory_of_the_path() {
    let content = "require \"a.sk\"\n  require \"sub/b.sk\"\nputs 1\nrequire \"c.sk\"\n";
    assert_eq!(
        resolve_requires("dir/main.sk", content),
        vec!["dir/a.sk".to_string(), "dir/sub/b.sk".to_string()]
    );
}

#[test]
fn resolve_requires_without_requires() {
    assert!(resolve_requires("main.sk", "").is_empty());
    assert!(resolve_requires("main.sk", "class A; end").is_empty());
    assert_eq!(resolve_requires("main.sk", "require \"x\""), vec!["x".to_string()]);
}

#[test]
fn with_file_name_replaces_the_last_component() {
    assert_eq!(with_file_name("a/b/c.sk", "d.sk"), "a/b/d.sk");
    assert_eq!(with_file_name("/main.sk", "d.sk"), "/d.sk");
    assert_eq!(with_file_name("main.sk", "d.sk"), "d.sk");
    assert_eq!(with_file_name("a/main.sk", "/lib/d.sk"), "/lib/d.sk");
    // the same as std's `Path::with_file_name` on such paths
    assert_eq!(
        std::path::Path::new("a/b/c.sk").with_file_name("d.sk").to_str().unwrap(),
        with_file_name("a/b/c.sk", "d.sk")
    );
}
