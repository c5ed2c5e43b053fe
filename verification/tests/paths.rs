//! Paths behave as those of the standard library on Unix.

use std::path::Path;

use dyad::paths::{
    components_below, extension_of, file_name_of, find_marked, is_same_path, join_paths,
    parent_of, paths_to_probe, relative_path,
};

const PATHS: [&str; 26] = [
    "", "/", "//", ".", "..", "./a", "../a", "a", "a/", "a//", "/a", "/a/", "a/b", "a//b", "a/./b",
    "a/../b", "/a/b/c.rs", "/a/b/.rs", "a.b.c", "a.", ".a.b", "/./a", "a/.", "a/..", "/..",
    "x/y.tar.gz/",
];

fn text(p: Option<&Path>) -> Option<String> {
    p.map(|p| p.to_str().unwrap().to_string())
}

#[test]
fn parts_of_paths_are_those_of_std() {
    for p in PATHS {
        let std = Path::new(p);
        assert_eq!(parent_of(p), text(std.parent()), "parent of {p:?}");
        let name = std.file_name().map(|n| n.to_str().unwrap().to_string());
        assert_eq!(file_name_of(p), name, "file name of {p:?}");
        let ext = std.extension().map(|n| n.to_str().unwrap().to_string());
        assert_eq!(extension_of(p), ext, "extension of {p:?}");
    }
}

#[test]
fn paths_are_joined_and_compared_as_in_std() {
    for a in PATHS {
        for b in PATHS {
            let joined = Path::new(a).join(b);
            assert_eq!(join_paths(a, b), joined.to_str().unwrap(), "{a:?} and {b:?}");
            assert_eq!(is_same_path(a, b), Path::new(a) == Path::new(b), "{a:?} and {b:?}");
            let below = Path::new(a).strip_prefix(b).ok();
            assert_eq!(components_below(a, b).is_some(), below.is_some(), "{a:?} in {b:?}");
            let expected = below.unwrap_or(Path::new(a));
            assert!(
                Path::new(&relative_path(a, b)) == expected,
                "{a:?} in {b:?}: {:?}",
                relative_path(a, b)
            );
        }
    }
}

#[test]
fn markers_are_looked_for_upwards() {
    let probes = paths_to_probe("/a/b", &vec!["x", "y"]);
    assert_eq!(probes, vec!["/a/b/x", "/a/b/y", "/a/x", "/a/y", "/x", "/y"]);
    let there = vec!["/a/y".to_string(), "/x".to_string()];
    assert_eq!(find_marked("/a/b", &vec!["x", "y"], &there).as_deref(), Some("/a"));
    assert_eq!(find_marked("/a/b", &vec!["z"], &there), None);
}
