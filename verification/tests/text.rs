use yy::text::{chars_of, contains, replace_char};

#[test]
fn replace_char_replaces_every_occurrence() {
    assert_eq!(replace_char("a:b:c", ':', '-'), "a-b-c");
    assert_eq!(replace_char(":::", ':', '-'), "---");
    assert_eq!(replace_char("", ':', '-'), "");
    assert_eq!(replace_char("abc", ':', '-'), "abc");
    assert_eq!(replace_char("a-b", ':', '-'), "a-b");
}

#[test]
fn replace_char_matches_the_standard_library() {
    for s in ["x86_64:unknown", "::a", "a::", "\u{e9}:\u{4e2d}:z", "no colon"] {
        assert_eq!(replace_char(s, ':', "-".chars().next().unwrap()), s.replace(':', "-"));
    }
}

#[test]
fn replace_char_keeps_wide_characters() {
    assert_eq!(replace_char("\u{e9}:\u{1f600}", ':', '-'), "\u{e9}-\u{1f600}");
    assert_eq!(replace_char("a\u{e9}a", '\u{e9}', 'e'), "aea");
}

#[test]
fn chars_of_lists_the_characters() {
    assert_eq!(chars_of("a\u{e9}:"), vec!['a', '\u{e9}', ':']);
    assert_eq!(chars_of(""), Vec::<char>::new());
}

#[test]
fn contains_finds_a_needle_anywhere() {
    assert!(contains("[target.x]", "[target.x]"));
    assert!(contains("a[target.x]", "[target.x]"));
    assert!(contains("[target.x]b", "[target.x]"));
    assert!(contains("aa[target.x]bb", "[target.x]"));
    assert!(contains("aab", "ab"));
    assert!(contains("aaab", "aab"));
}

#[test]
fn contains_rejects_what_is_not_there() {
    assert!(!contains("", "a"));
    assert!(!contains("[target.x", "[target.x]"));
    assert!(!contains("target.x]", "[target.x]"));
    assert!(!contains("ab", "abc"));
    assert!(!contains("abab", "ba b"));
    assert!(!contains("[target.x] ", "[target.y]"));
}

#[test]
fn contains_takes_the_empty_needle() {
    assert!(contains("", ""));
    assert!(contains("abc", ""));
}

#[test]
fn contains_matches_the_standard_library() {
    let hays = ["", "a", "ab", "aab", "abcabd", "\u{e9}\u{4e2d}x", "[target.a]\n[target.b]"];
    let needles = ["", "a", "b", "ab", "abd", "\u{4e2d}", "\u{4e2d}x", "[target.b]", "[target.c]"];
    for hay in hays {
        for needle in needles {
            assert_eq!(contains(hay, needle), hay.contains(needle), "{hay:?} {needle:?}");
        }
    }
}
