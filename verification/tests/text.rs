use bundlrs::text::{chars_of, replace_all, replace_first_n};

const CASES: [(&str, &str, &str); 12] = [
    ("abcabc", "b", "X"),
    ("abc", "", "x"),
    ("", "", "x"),
    ("", "a", "x"),
    ("aaa", "aa", "b"),
    ("aaaa", "aa", "b"),
    ("hello world", "world", "there"),
    ("no match here", "zzz", "y"),
    ("e#close# and e#close#", "e#close#", "</span>"),
    ("ünïcödé ü", "ü", "u"),
    ("abab", "ab", "ab"),
    ("xyz", "xyz", ""),
];

#[test]
fn replace_all_agrees_with_str_replace() {
    for (s, p, r) in CASES {
        assert_eq!(replace_all(s, p, r), s.replace(p, r), "case {:?}", (s, p, r));
    }
}

#[test]
fn replace_first_n_agrees_with_str_replacen() {
    for (s, p, r) in CASES {
        for n in 0..4 {
            assert_eq!(replace_first_n(s, p, r, n), s.replacen(p, r, n), "case {:?}", (s, p, r, n));
        }
    }
}

#[test]
fn replace_all_exact_values() {
    assert_eq!(replace_all("abcabc", "b", "X"), "aXcaXc");
    assert_eq!(replace_all("abc", "", "x"), "xaxbxcx");
    assert_eq!(replace_all("aaa", "aa", "b"), "ba");
}

#[test]
fn replace_first_n_exact_values() {
    assert_eq!(replace_first_n("aaa", "a", "b", 1), "baa");
    assert_eq!(replace_first_n("aaa", "a", "b", 0), "aaa");
    assert_eq!(replace_first_n("abc", "", "x", 1), "xabc");
}

#[test]
fn replacing_an_absent_pattern_changes_nothing() {
    assert_eq!(replace_all("plain text", "e#", "X"), "plain text");
}

#[test]
fn replacing_a_pattern_by_itself_changes_nothing() {
    assert_eq!(replace_all("abab ab", "ab", "ab"), "abab ab");
}

#[test]
fn chars_of_lists_the_characters() {
    assert_eq!(chars_of("aü€"), vec!['a', 'ü', '€']);
}
