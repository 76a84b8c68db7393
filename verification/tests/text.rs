use gmf::text::{
    cat5, chars_of, contains, find, join_with, lower_chars, replace_all, rfind, same,
    same_ignore_case, split, string_of, strip_start, trim, white_space,
};

#[test]
fn trimming_matches_the_standard_library() {
    let samples = [
        "",
        " ",
        "\n\t\r ",
        "a",
        "  a b  ",
        "\u{3000}全角\u{3000}",
        "\u{85}x\u{a0}",
        "\u{200b}zero width stays\u{200b}",
        "line\n",
        "\u{feff}bom",
        "\u{2028}sep\u{2029}",
        "\u{180e}mongolian\u{180e}",
    ];
    for s in samples {
        assert_eq!(trim(s), s.trim(), "{s:?}");
    }
}

#[test]
fn white_space_matches_the_standard_library_for_every_character() {
    for u in 0u32..0x11_0000 {
        if let Some(c) = char::from_u32(u) {
            assert_eq!(white_space(c), c.is_whitespace(), "{u:x}");
        }
    }
}

#[test]
fn trimming_twice_changes_nothing() {
    let once = trim(" \n x y \t");
    assert_eq!(trim(&once), once);
    assert_eq!(once, "x y");
}

#[test]
fn searching_from_both_ends() {
    let hay = chars_of("abcabc");
    let needle = chars_of("abc");
    assert_eq!(find(&hay, &needle), Some(0));
    assert_eq!(rfind(&hay, &needle), Some(3));
    assert_eq!(find(&hay, &chars_of("x")), None);
    assert_eq!(rfind(&hay, &chars_of("x")), None);
    assert_eq!(find(&hay, &chars_of("")), Some(0));
    assert_eq!(rfind(&hay, &chars_of("")), Some(6));
    assert_eq!(find(&chars_of("aa"), &chars_of("aaa")), None);
    assert_eq!(rfind(&chars_of("aa"), &chars_of("aaa")), None);
}

#[test]
fn containing_matches_the_standard_library() {
    for (h, n) in [("NoSuchBucket: x", "NoSuchBucket"), ("", ""), ("", "a"), ("桶不存在", "不存")] {
        assert_eq!(contains(h, n), h.contains(n));
    }
}

#[test]
fn splitting_matches_the_standard_library() {
    for s in ["", "|", "a|b|c", "a||b|", "没有"] {
        let expected: Vec<String> = s.split('|').map(|p| p.to_string()).collect();
        assert_eq!(split(s, '|'), expected);
    }
}

#[test]
fn replacing_matches_the_standard_library() {
    for s in ["", "aaaa", "aaa", "xaay", "naan", "aab", "baa"] {
        assert_eq!(replace_all(s, "aa", "-"), s.replace("aa", "-"));
    }
}

#[test]
fn joining_and_gluing() {
    let parts = vec!["a".to_string(), "b".to_string(), "".to_string()];
    assert_eq!(join_with(&parts, ", "), "a, b, ");
    assert_eq!(join_with(&Vec::new(), ", "), "");
    assert_eq!(cat5("1", "2", "3", "4", "5"), "12345");
}

#[test]
fn letter_case() {
    let lowered: String = lower_chars("OpenSSH_9.6 ÄÖ").into_iter().collect();
    assert_eq!(lowered, "openssh_9.6 ÄÖ");
    assert!(same_ignore_case("Y", "y"));
    assert!(!same_ignore_case("yes", "y"));
    assert!(!same_ignore_case("Ä", "ä"));
    assert!(same("a", "a"));
    assert!(!same("a", "A"));
}

#[test]
fn stripping_a_leading_character() {
    for s in ["", "/", "//a/b/", "a/b"] {
        assert_eq!(strip_start(s, '/'), s.trim_start_matches('/'));
    }
    assert_eq!(string_of(&chars_of("abcdef"), 2, 4), "cd");
}
