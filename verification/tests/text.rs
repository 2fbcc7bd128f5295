use minishell::text::{is_whitespace, str_eq, strip_first};

#[test]
fn str_eq_same_text() {
    assert!(str_eq("echo", "echo"));
    assert!(str_eq("", ""));
    assert!(str_eq("caf\u{e9}", "caf\u{e9}"));
}

#[test]
fn str_eq_different_text() {
    assert!(!str_eq("echo", "Echo"));
    assert!(!str_eq("echo", "ech"));
    assert!(!str_eq("ech", "echo"));
    assert!(!str_eq("", " "));
    assert!(!str_eq("caf\u{e9}", "cafe"));
}

#[test]
fn is_whitespace_agrees_with_std_on_every_char() {
    let mut code: u32 = 0;
    while code <= 0x10FFFF {
        if let Some(c) = char::from_u32(code) {
            assert_eq!(is_whitespace(c), c.is_whitespace(), "U+{:04X}", code);
        }
        code += 1;
    }
}

#[test]
fn is_whitespace_named_cases() {
    assert!(is_whitespace(' '));
    assert!(is_whitespace('\t'));
    assert!(is_whitespace('\n'));
    assert!(is_whitespace('\r'));
    assert!(is_whitespace('\u{a0}'));
    assert!(is_whitespace('\u{3000}'));
    assert!(!is_whitespace('a'));
    assert!(!is_whitespace('~'));
    assert!(!is_whitespace('\u{200b}'));
    assert!(!is_whitespace('\0'));
}

#[test]
fn strip_first_present() {
    assert_eq!(strip_first("~/src", '~'), Some("/src".to_string()));
    assert_eq!(strip_first("~", '~'), Some(String::new()));
    assert_eq!(strip_first("~~", '~'), Some("~".to_string()));
}

#[test]
fn strip_first_absent() {
    assert_eq!(strip_first("", '~'), None);
    assert_eq!(strip_first("/~", '~'), None);
    assert_eq!(strip_first("src", '~'), None);
}
