use recipe_grabber::text::{decimal, join, replace, signed_decimal, split, trim};

#[test]
fn trim_removes_unicode_whitespace_at_both_ends() {
    assert_eq!(trim("  \t hello world \n"), "hello world");
    assert_eq!(trim("\u{a0}\u{3000}x\u{2009}"), "x");
    assert_eq!(trim("   "), "");
    assert_eq!(trim(""), "");
    assert_eq!(trim("a b"), "a b");
}

#[test]
fn trim_twice_is_trim_once() {
    for s in ["  a  ", "\n\tb c\r\n", "", " ", "x"] {
        let once = trim(s);
        assert_eq!(trim(&once), once);
    }
}

#[test]
fn split_takes_leftmost_non_overlapping_matches() {
    assert_eq!(split("a. b. c", ". "), vec!["a", "b", "c"]);
    assert_eq!(split("aaa", "aa"), vec!["", "a"]);
    assert_eq!(split("", "x"), vec![""]);
    assert_eq!(split("x", "x"), vec!["", ""]);
    assert_eq!(split("no match", ". "), vec!["no match"]);
}

#[test]
fn join_puts_the_separator_between_parts() {
    let parts = vec!["a".to_string(), "b".to_string(), "c".to_string()];
    assert_eq!(join(&parts, ", "), "a, b, c");
    assert_eq!(join(&vec![], ", "), "");
    assert_eq!(join(&vec!["only".to_string()], "-"), "only");
}

#[test]
fn replace_matches_std() {
    for (s, from, to) in [
        ("PT1H30M", "PT", ""),
        ("1H30M", "H", "h "),
        ("Serves : 4", "Serves : ", ""),
        ("a\r\nb\r\r\n", "\r\n", "\n"),
        ("main course", " ", "_"),
        ("aaaa", "aa", "b"),
    ] {
        assert_eq!(replace(s, from, to), s.replace(from, to));
    }
}

#[test]
fn decimals_match_std() {
    for n in [0u64, 7, 10, 99, 100, 12345, u64::MAX] {
        assert_eq!(decimal(n), n.to_string());
    }
    for n in [0i64, -1, 42, i64::MIN, i64::MAX] {
        assert_eq!(signed_decimal(n), n.to_string());
    }
}

#[test]
fn line_ends_are_normalized() {
    assert_eq!(recipe_grabber::normalize_newlines("a\r\nb\r\n"), "a\nb\n");
    assert_eq!(recipe_grabber::normalize_newlines("no returns"), "no returns");
    assert_eq!(recipe_grabber::normalize_newlines("a\r\r\nb"), "a\r\nb");
    assert_eq!(recipe_grabber::normalize_newlines("lone\rcarriage"), "lone\rcarriage");
}
