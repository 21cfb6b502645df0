use autebooks::text::{
    chars_of, contains, decimal_text, digit, ends_with, find_from, matches_at, push_all, replace,
    same_text, starts_with, suffix_after_last, text_of,
};

fn c(s: &str) -> Vec<char> {
    s.chars().collect()
}

fn r(s: &str, from: &str, to: &str) -> String {
    replace(&c(s), &c(from), &c(to)).into_iter().collect()
}

#[test]
fn text_and_characters() {
    assert_eq!(chars_of("héllo"), vec!['h', 'é', 'l', 'l', 'o']);
    assert_eq!(chars_of(""), Vec::<char>::new());
    assert_eq!(text_of(&['a', 'ß', 'c']), "aßc");
    assert!(same_text("abc", "abc"));
    assert!(!same_text("abc", "abd"));
    let mut out = c("ab");
    push_all(&mut out, &c("cd"));
    assert_eq!(out, c("abcd"));
}

#[test]
fn searching() {
    assert!(matches_at(&c("hello"), 1, &c("ell")));
    assert!(!matches_at(&c("hello"), 2, &c("ell")));
    assert!(!matches_at(&c("hello"), 4, &c("lo")));
    assert!(matches_at(&c("hello"), 5, &c("")));
    assert!(!matches_at(&c("hello"), 6, &c("")));
    assert!(starts_with(&c("hello"), &c("he")));
    assert!(!starts_with(&c("hello"), &c("el")));
    assert!(starts_with(&c("hello"), &c("")));
    assert!(ends_with(&c("hello"), &c("llo")));
    assert!(!ends_with(&c("hello"), &c("hell")));
    assert!(!ends_with(&c("lo"), &c("hello")));
    assert!(contains(&c("hello"), &c("ll")));
    assert!(!contains(&c("hello"), &c("lll")));
    assert_eq!(find_from(&c("abcabc"), 0, &c("bc")), Some(1));
    assert_eq!(find_from(&c("abcabc"), 2, &c("bc")), Some(4));
    assert_eq!(find_from(&c("abcabc"), 5, &c("bc")), None);
    assert_eq!(find_from(&c("abc"), 3, &c("")), Some(3));
}

#[test]
fn replacing_as_the_standard_library_does() {
    for (s, from, to) in [
        ("a<br>b<br>", "<br>", "<br/>"),
        ("aaaa", "aa", "b"),
        ("aaa", "aa", "b"),
        ("abc", "", "-"),
        ("", "", "-"),
        ("", "a", "b"),
        ("abc", "abc", ""),
        ("abc", "abcd", "x"),
        ("ababab", "aba", "x"),
    ] {
        assert_eq!(r(s, from, to), s.replace(from, to), "{s:?} {from:?} {to:?}");
    }
    assert_eq!(r("aaa", "aa", "b"), "ba");
    assert_eq!(r("abc", "", "-"), "-a-b-c-");
}

#[test]
fn numbers_in_base_ten() {
    assert_eq!(digit(0), '0');
    assert_eq!(digit(9), '9');
    for n in [0u64, 7, 10, 42, 100, 65535, 18446744073709551615] {
        assert_eq!(decimal_text(n).into_iter().collect::<String>(), n.to_string());
    }
}

#[test]
fn what_stands_behind_the_last_dot() {
    let e = |s: &str| suffix_after_last(&c(s), '.').into_iter().collect::<String>();
    assert_eq!(e("cover.jpg"), "jpg");
    assert_eq!(e("a.tar.gz"), "gz");
    assert_eq!(e("noextension"), "noextension");
    assert_eq!(e("trailing."), "");
    assert_eq!(e(""), "");
}
