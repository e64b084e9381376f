use copydog::pathname::{
    contained_in, extension, file_name, file_stem, is_absolute, join, normalize_path,
};

#[test]
fn join_inserts_a_single_separator() {
    assert_eq!(join("/a", "b"), "/a/b");
    assert_eq!(join("/a/", "b"), "/a/b");
    assert_eq!(join("", "b"), "b");
}

#[test]
fn join_keeps_an_absolute_right_side() {
    assert_eq!(join("/a", "/abs/b"), "/abs/b");
}

#[test]
fn absolute_paths_start_with_the_separator() {
    assert!(is_absolute("/a"));
    assert!(!is_absolute("a/b"));
    assert!(!is_absolute(""));
}

#[test]
fn file_name_is_the_last_component() {
    assert_eq!(file_name("/a/b/c.png"), "c.png");
    assert_eq!(file_name("c.png"), "c.png");
    assert_eq!(file_name("/a/b/"), "");
}

#[test]
fn extension_follows_the_last_dot() {
    assert_eq!(extension("/a/foo.png"), Some("png".to_string()));
    assert_eq!(extension("/a/foo.tar.gz"), Some("gz".to_string()));
    assert_eq!(extension("/a/foo"), None);
    assert_eq!(extension("/a/.bashrc"), None);
    assert_eq!(extension("/a/foo."), Some("".to_string()));
}

#[test]
fn file_stem_drops_the_extension() {
    assert_eq!(file_stem("/a/foo.png"), "foo");
    assert_eq!(file_stem("/a/.bashrc"), ".bashrc");
    assert_eq!(file_stem("/a/foo"), "foo");
}

#[test]
fn containment_is_by_component() {
    assert!(contained_in("/a/b", "/a/b"));
    assert!(contained_in("/a/b/c.png", "/a/b"));
    assert!(!contained_in("/a/bc/d.png", "/a/b"));
    assert!(contained_in("/a/b/c.png", "/a/b/"));
}

#[test]
fn normalize_collapses_dots_and_doubled_separators() {
    assert_eq!(normalize_path("/a/./b/../c"), "/a/c");
    assert_eq!(normalize_path("a//b/"), "a/b");
    assert_eq!(normalize_path("../x"), "x");
    assert_eq!(normalize_path("/"), "/");
    assert_eq!(normalize_path(""), "");
    assert_eq!(normalize_path("a/b/../../c"), "c");
}
