use bitforge::shell::dquote;
use bitforge::shell::join_with;
use bitforge::shell::shell_quote;
use bitforge::shell::str_eq;
use bitforge::shell::truncate_str;

/// Undo POSIX-shell quoting the way a shell reads a word: single-quoted
/// spans are literal, a backslash outside quotes escapes one character.
fn shell_unquote(q: &str) -> Option<String> {
    let mut out = String::new();
    let mut chars = q.chars();
    let mut in_quote = false;
    while let Some(c) = chars.next() {
        if in_quote {
            if c == '\'' {
                in_quote = false;
            } else {
                out.push(c);
            }
        } else if c == '\'' {
            in_quote = true;
        } else if c == '\\' {
            match chars.next() {
                Some(e) => out.push(e),
                None => return None,
            }
        } else {
            out.push(c);
        }
    }
    if in_quote {
        None
    } else {
        Some(out)
    }
}

#[test]
fn quoting_round_trips_plain_strings() {
    for s in ["", "abc", "v25.0", "a b c", "$HOME `cmd` \"x\"", "tab\there"] {
        assert_eq!(shell_unquote(&shell_quote(s)).as_deref(), Some(s));
    }
}

#[test]
fn quoting_round_trips_strings_with_single_quotes() {
    for s in ["it's", "'", "''", "a'b'c", "'start", "end'"] {
        assert_eq!(shell_unquote(&shell_quote(s)).as_deref(), Some(s));
    }
}

#[test]
fn quoting_exact_forms() {
    assert_eq!(shell_quote("abc"), "'abc'");
    assert_eq!(shell_quote(""), "''");
    assert_eq!(shell_quote("it's"), "'it'\\''s'");
}

#[test]
fn dquote_exact_forms() {
    assert_eq!(dquote("/opt/homebrew/bin/brew"), "\"/opt/homebrew/bin/brew\"");
    assert_eq!(dquote("a\"b"), "\"a\\\"b\"");
    assert_eq!(dquote("a\\b"), "\"a\\\\b\"");
}

#[test]
fn truncate_str_never_splits_a_character() {
    assert_eq!(truncate_str("hello", 10), "hello");
    assert_eq!(truncate_str("hello", 3), "hel");
    assert_eq!(truncate_str("héllo", 2), "hé");
    assert_eq!(truncate_str("日本語abc", 3), "日本語");
    assert_eq!(truncate_str("", 5), "");
}

#[test]
fn str_eq_compares_contents() {
    assert!(str_eq("abc", "abc"));
    assert!(!str_eq("abc", "abd"));
    assert!(!str_eq("abc", "abcd"));
    assert!(str_eq("", ""));
}

#[test]
fn join_with_examples() {
    let parts: Vec<String> = vec!["a".into(), "b".into(), "c".into()];
    assert_eq!(join_with(&parts, ", "), "a, b, c");
    assert_eq!(join_with(&parts, ":"), "a:b:c");
    let one: Vec<String> = vec!["only".into()];
    assert_eq!(join_with(&one, ", "), "only");
    let none: Vec<String> = vec![];
    assert_eq!(join_with(&none, ", "), "");
}
