use gmf::common::utils::{app_dir, config_path, join_path, own_dir};
use gmf::path::{components_of, file_name_of, same_path, with_file_name};
use std::path::Path;

#[test]
fn file_names_match_the_standard_library() {
    for p in [
        "", "/", "//", ".", "..", "./", "../", "/.", "/..", "a", "a/", "a//", "/a", "/a/b", "a/b/",
        "a/.", "a/./", "a/./.", "a/..", "a/../", "./a", "./.", "...", "a/...", ".hidden", "/x/.y",
        "a/b/..", "~/文件.txt", "a.b/c.d", "././.", "/./", "//.//", "a/././/",
    ] {
        let expected = Path::new(p).file_name().map(|n| n.to_str().unwrap().to_string());
        assert_eq!(file_name_of(p), expected, "{p:?}");
    }
}

const PATHS: [&str; 43] = [
    "", "/", "//", ".", "..", "./", "../", "/.", "/..", "a", "a/", "a//", "/a", "//a", "/a/b", "a/b",
    "a/b/", "a//b", "a/./b", "a/./b/.", "./a/b", "/./a", "a/.", "a/./", "a/./.", "a/..", "a/../", "./a",
    "./.", "...", "a/...", ".hidden", "/x/.y", "a/b/..", "~/文件.txt", "a.b/c.d", "././.", "/./", "//.//",
    "a/././/", "/.//b", "./../b", "a/.b",
];

#[test]
fn renaming_matches_the_standard_library() {
    for p in PATHS {
        for name in ["n", "新", "n.x"] {
            let expected = Path::new(p).with_file_name(name);
            assert_eq!(with_file_name(p, name), expected.to_str().unwrap(), "{p:?}");
        }
    }
}

#[test]
fn sameness_matches_the_standard_library() {
    for a in PATHS {
        for b in PATHS {
            assert_eq!(same_path(a, b), Path::new(a) == Path::new(b), "{a:?} {b:?}");
        }
    }
    assert_eq!(components_of("./a//b/./c/"), [".", "a", "b", "c"]);
    assert!(same_path("x/y/", "x/y"));
}

#[test]
fn joining_matches_the_standard_library() {
    for base in ["", "/", "a", "a/", "/a/b"] {
        for name in ["", "x", "/x", "x/y"] {
            let expected = Path::new(base).join(name);
            assert_eq!(join_path(base, name), expected.to_str().unwrap(), "{base:?} {name:?}");
        }
    }
}

#[test]
fn places_of_the_program() {
    let dir = Some("/home/u/.config".to_string());
    let home = Some("/home/u".to_string());
    assert_eq!(app_dir(&dir, &home), "/home/u/.config/gmf");
    assert_eq!(app_dir(&None, &home), "/home/u/.config/gmf");
    assert_eq!(app_dir(&Some("/etc".to_string()), &None), "/etc/gmf");
    assert_eq!(own_dir(&None, &home, ".cache"), "/home/u/.cache/gmf");
    assert_eq!(config_path("/home/u/.config/gmf"), "/home/u/.config/gmf/config.toml");
}
