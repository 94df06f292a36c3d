use runc_shim::error::Error;
use runc_shim::paths::{abs_path_buf, abs_string, binary_path_candidates, normalize_path};

#[test]
fn normalize_resolves_dots() {
    assert_eq!(normalize_path("/a/./b/../c"), "/a/c");
    assert_eq!(normalize_path("/../.."), "/");
    assert_eq!(normalize_path("//a//b/"), "/a/b");
    assert_eq!(normalize_path("a/../../b"), "b");
    assert_eq!(normalize_path(""), "");
    assert_eq!(normalize_path("/"), "/");
}

#[test]
fn abs_string_of_absolute_path() {
    assert_eq!(abs_string("/tmp/runc.log").unwrap(), "/tmp/runc.log");
    assert_eq!(abs_string("/tmp/./x/../runc.log").unwrap(), "/tmp/runc.log");
    assert_eq!(abs_path_buf("/..").unwrap(), "/");
}

#[test]
fn abs_string_of_relative_path() {
    let cwd = std::path::Path::new(".").canonicalize().unwrap().to_string_lossy().to_string();
    assert_eq!(abs_string(".").unwrap(), cwd);
    let expected = format!("{}/fake-bundle", cwd.trim_end_matches('/'));
    assert_eq!(abs_string("fake-bundle").unwrap(), expected);
}

#[test]
fn abs_string_of_empty_path() {
    assert!(matches!(abs_string(""), Err(Error::InvalidPath(_))));
}

#[test]
fn normalizing_twice_changes_nothing() {
    for p in ["/a/./b/../c", "x//y/..", "/../a", "./", "a/b/c/../../.."] {
        let once = normalize_path(p);
        assert_eq!(normalize_path(&once), once);
    }
}

#[test]
fn search_path_candidates() {
    assert_eq!(
        binary_path_candidates("/usr/bin:/bin/::rel", "runc"),
        vec!["/usr/bin/runc", "/bin/runc", "runc", "rel/runc"]
    );
    assert_eq!(
        binary_path_candidates("/usr/bin:/bin", "/opt/runc"),
        vec!["/opt/runc", "/opt/runc"]
    );
    assert_eq!(binary_path_candidates("", "runc"), vec!["runc"]);
}
