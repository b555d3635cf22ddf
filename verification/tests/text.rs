use telemetry_ingest::text::{
    ends_with, join_strings, matches_at, replace_all, same_chars, same_text, split_chars,
    starts_with, to_chars,
};
use telemetry_ingest::{ETX, STX};

fn chars(s: &str) -> Vec<char> {
    s.chars().collect()
}

fn text(v: &Vec<char>) -> String {
    v.iter().collect()
}

fn split(s: &str) -> Vec<String> {
    split_chars(&chars(s), ',').iter().map(text).collect()
}

#[test]
fn split_agrees_with_the_standard_library() {
    for s in ["", ",", "a", "a,b", "a,,b", ",a,", "a,b,c,", "\u{2},x,\u{3}", "é,ü"] {
        let expect: Vec<String> = s.split(',').map(|p| p.to_string()).collect();
        assert_eq!(split(s), expect);
    }
}

#[test]
fn join_undoes_split() {
    for s in ["", ",", "a", "a,b", "a,,b", ",a,", "a,b,c,"] {
        assert_eq!(join_strings(&split(s), ','), s);
    }
    assert_eq!(join_strings(&vec![], ','), "");
    assert_eq!(join_strings(&vec!["a".to_string(), String::new()], ';'), "a;");
}

#[test]
fn replace_agrees_with_the_standard_library() {
    let cases = [
        ("", "a", "b"),
        ("aaa", "a", "bb"),
        ("aaa", "aa", "b"),
        ("abcabc", "bc", ""),
        ("abcabc", "abcabc", "x"),
        ("abc", "abcd", "x"),
        ("{{A}}_{{A}}", "{{A}}", "{{A}}{{A}}"),
        ("xax", "a", "a"),
    ];
    for (s, from, to) in cases.iter() {
        assert_eq!(text(&replace_all(&chars(s), &chars(from), &chars(to))), s.replace(from, to));
    }
    assert_eq!(text(&replace_all(&chars("abc"), &chars(""), &chars("x"))), "abc");
}

#[test]
fn comparisons() {
    assert!(same_text("abc", "abc"));
    assert!(!same_text("abc", "abd"));
    assert!(!same_text("abc", "ab"));
    assert!(same_text("", ""));
    assert!(same_chars(&chars("é"), &chars("é")));
    assert!(!same_chars(&chars("a"), &chars("")));
    assert_eq!(to_chars("aé\u{2}"), vec!['a', 'é', '\u{2}']);
    assert!(starts_with(&chars("abc"), &chars("ab")));
    assert!(starts_with(&chars("abc"), &chars("")));
    assert!(!starts_with(&chars("ab"), &chars("abc")));
    assert!(ends_with(&chars("abc"), &chars("bc")));
    assert!(!ends_with(&chars("abc"), &chars("ab")));
    assert!(matches_at(&chars("abc"), 1, &chars("bc")));
    assert!(!matches_at(&chars("abc"), 0, &chars("bc")));
}

#[test]
fn control_characters() {
    assert_eq!(STX, '\u{2}');
    assert_eq!(ETX, '\u{3}');
}
