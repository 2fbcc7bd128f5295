use minishell::builtin::{parse, Builtin};

#[test]
fn parse_each_builtin() {
    assert_eq!(parse("echo"), Some(Builtin::Echo));
    assert_eq!(parse("type"), Some(Builtin::Type));
    assert_eq!(parse("cd"), Some(Builtin::Cd));
    assert_eq!(parse("pwd"), Some(Builtin::Pwd));
    assert_eq!(parse("exit"), Some(Builtin::Exit));
}

#[test]
fn parse_is_case_sensitive() {
    assert_eq!(parse("Echo"), None);
    assert_eq!(parse("EXIT"), None);
    assert_eq!(parse("Cd"), None);
}

#[test]
fn parse_takes_no_prefix_or_extension() {
    assert_eq!(parse("ech"), None);
    assert_eq!(parse("echoo"), None);
    assert_eq!(parse("e"), None);
    assert_eq!(parse("exit "), None);
    assert_eq!(parse(" exit"), None);
}

#[test]
fn parse_other_names() {
    assert_eq!(parse(""), None);
    assert_eq!(parse("ls"), None);
    assert_eq!(parse("foobar123"), None);
}
