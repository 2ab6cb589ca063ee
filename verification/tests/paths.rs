use tool_web::paths::path_is_valid;

#[test]
fn plain_names_are_accepted() {
    assert!(path_is_valid("foo.txt"));
    assert!(path_is_valid("f.txt"));
    assert!(path_is_valid("archive.tar.gz"));
    assert!(path_is_valid("a"));
    assert!(path_is_valid("..."));
    assert!(path_is_valid("a..b"));
    assert!(path_is_valid(".hidden"));
}

#[test]
fn empty_name_is_rejected() {
    assert!(!path_is_valid(""));
}

#[test]
fn dot_components_are_rejected() {
    assert!(!path_is_valid("."));
    assert!(!path_is_valid(".."));
}

#[test]
fn separators_are_rejected() {
    assert!(!path_is_valid("a/b"));
    assert!(!path_is_valid("/etc/passwd"));
    assert!(!path_is_valid("../../etc/passwd"));
    assert!(!path_is_valid("uploads/x"));
    assert!(!path_is_valid("a/"));
    assert!(!path_is_valid("/"));
}
