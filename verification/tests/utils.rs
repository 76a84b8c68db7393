use gmf::common::events::calc_sha256;
use gmf::common::utils::{app_dir, calc_xxh3, config_path, join_path, own_dir};

fn some(s: &str) -> Option<String> {
    Some(s.to_string())
}

#[test]
fn paths_are_joined() {
    assert_eq!(join_path("/a", "b"), "/a/b");
    assert_eq!(join_path("/a/", "b"), "/a/b");
    assert_eq!(join_path("", "b"), "b");
    for (base, name) in [("/a", "b"), ("/a/", "b"), ("", "b"), ("/a", "/b"), ("a", "")] {
        let joined = std::path::Path::new(base).join(name);
        assert_eq!(join_path(base, name), joined.to_str().unwrap(), "{base} {name}");
    }
}

#[test]
fn directories_of_the_program() {
    assert_eq!(app_dir(&some("/c"), &some("/h")), "/c/gmf");
    assert_eq!(app_dir(&None, &some("/h")), "/h/.config/gmf");
    assert_eq!(own_dir(&None, &some("/h"), ".cache"), "/h/.cache/gmf");
    assert_eq!(config_path("/c/gmf"), "/c/gmf/config.toml");
}

#[test]
fn hashes_of_contents() {
    assert_eq!(calc_xxh3(b""), "2d06800538d394c2");
    assert_eq!(calc_xxh3(b"abc"), format!("{:x}", xxhash_rust::xxh3::xxh3_64(b"abc")));
    assert_eq!(
        calc_sha256(b"abc"),
        "ba7816bf8f01cfea414140de5dae2223b00361a396177a9cb410ff61f20015ad"
    );
}
