use trend_scope::text::{
    chars_of, contains_chars, i64_to_decimal, replace_text, same_text, string_from_chars,
};

#[test]
fn decimal_formatting_matches_display() {
    for n in [0i64, 7, 10, 99, 100, 1234, -1, -10, -9876, i64::MAX, i64::MIN] {
        assert_eq!(i64_to_decimal(n), n.to_string());
    }
}

#[test]
fn replace_matches_std() {
    let cases = [
        ("abcabc", "b", "X"),
        ("aaaa", "aa", "b"),
        ("aaa", "aa", "b"),
        ("abc", "", "X"),
        ("", "", "X"),
        ("", "a", "X"),
        ("token token", "token", "***"),
        ("héllo wörld", "ö", "o"),
        ("no match", "zzz", "***"),
    ];
    for (s, p, r) in cases {
        assert_eq!(replace_text(s, p, r), s.replace(p, r));
    }
}

#[test]
fn substring_search() {
    let hay = chars_of("ai for startups");
    assert!(contains_chars(&hay, &chars_of("startups")));
    assert!(contains_chars(&hay, &chars_of("")));
    assert!(contains_chars(&hay, &chars_of("ai")));
    assert!(!contains_chars(&hay, &chars_of("ups!")));
    assert!(!contains_chars(&chars_of(""), &chars_of("a")));
}

#[test]
fn text_equality_and_building() {
    assert!(same_text("web", "web"));
    assert!(!same_text("web", "we"));
    assert!(!same_text("web", "Web"));
    assert_eq!(string_from_chars(&vec!['a', 'é', 'z']), "aéz");
}
