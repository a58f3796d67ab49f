use asteria::vfs::{file_name, join, normalize_path, PathError};

#[test]
fn normalize_resolves_dot_segments_against_cwd() {
    assert_eq!(normalize_path("/", "a/b/../c").unwrap(), "/a/c");
    assert_eq!(normalize_path("/x/y", "..").unwrap(), "/x");
    assert_eq!(normalize_path("/x/y", "./z").unwrap(), "/x/y/z");
}

#[test]
fn normalize_absolute_input_ignores_cwd() {
    assert_eq!(normalize_path("/a", "/b/./c//d").unwrap(), "/b/c/d");
    assert_eq!(normalize_path("/a", "/").unwrap(), "/");
}

#[test]
fn normalize_empty_cwd_is_root() {
    assert_eq!(normalize_path("", "foo").unwrap(), "/foo");
    assert_eq!(normalize_path("", "").unwrap(), "/");
}

#[test]
fn normalize_never_climbs_above_root() {
    assert_eq!(normalize_path("/a", "../../..").unwrap(), "/");
}

#[test]
fn normalize_rejects_relative_cwd() {
    let err = normalize_path("rel", "x").unwrap_err();
    assert!(matches!(err, PathError::InvalidCwd));
    assert_eq!(err.message(), "invalid cwd: must be absolute");
}

#[test]
fn normalize_keeps_cwd_components_as_given() {
    assert_eq!(normalize_path("/a/../b", "x").unwrap(), "/a/../b/x");
}

#[test]
fn file_name_takes_last_component() {
    assert_eq!(file_name("/logs/a.txt").unwrap(), "a.txt");
    assert_eq!(file_name("/logs/dir/").unwrap(), "dir");
    assert_eq!(file_name("plain").unwrap(), "plain");
}

#[test]
fn file_name_of_root_is_an_error() {
    let err = file_name("/").unwrap_err();
    assert_eq!(err.message(), "path has no file name: /");
    let err = file_name("//").unwrap_err();
    assert_eq!(err.message(), "path has no file name: //");
    let err = file_name("").unwrap_err();
    assert_eq!(err.message(), "path has no file name: ");
}

#[test]
fn join_appends_child() {
    assert_eq!(join("/", "a").unwrap(), "/a");
    assert_eq!(join("/x", "a").unwrap(), "/x/a");
}

#[test]
fn join_rejects_bad_segments() {
    assert_eq!(join("/x", "a/b").unwrap_err().message(), "invalid child path segment: a/b");
    assert_eq!(join("/x", "").unwrap_err().message(), "invalid child path segment: ");
}

#[test]
fn file_name_of_join_is_child() {
    for parent in ["/", "/x", "/x/y", "rel"] {
        for child in ["a", "b.txt", "..", "."] {
            let joined = join(parent, child).unwrap();
            assert_eq!(file_name(&joined).unwrap(), child);
        }
    }
}

#[test]
fn normalizing_twice_changes_nothing() {
    for cwd in ["/", "", "/logs", "/a/b"] {
        for input in ["x/../y", "/abs/./p", "..", ".", "a//b/", "../../q"] {
            let once = normalize_path(cwd, input).unwrap();
            assert_eq!(normalize_path(cwd, &once).unwrap(), once);
        }
    }
}

#[test]
fn normalized_paths_are_clean_and_independent_of_cwd() {
    let r = normalize_path("/srv/data", "logs//./x/../y/").unwrap();
    assert_eq!(r, "/srv/data/logs/y");
    for cwd in ["", "/", "/other/place"] {
        assert_eq!(normalize_path(cwd, &r).unwrap(), r);
    }
    assert!(r.starts_with('/') && !r.ends_with('/'));
    assert!(r[1..].split('/').all(|s| !s.is_empty() && s != "." && s != ".."));
}

#[test]
fn dot_components_of_cwd_removed_by_the_input() {
    let r = normalize_path("/a/..", "..").unwrap();
    assert_eq!(r, "/a");
    assert_eq!(normalize_path("/a/..", &r).unwrap(), r);
    assert_eq!(normalize_path("", &r).unwrap(), r);
}
