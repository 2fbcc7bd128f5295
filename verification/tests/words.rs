use minishell::words::{copy_words, join_words, split, tokenize};

fn owned(words: &[&str]) -> Vec<String> {
    words.iter().map(|w| w.to_string()).collect()
}

#[test]
fn tokenize_empty_line() {
    assert_eq!(tokenize(""), Vec::<String>::new());
}

#[test]
fn tokenize_blank_lines() {
    assert_eq!(tokenize(" "), Vec::<String>::new());
    assert_eq!(tokenize("\n"), Vec::<String>::new());
    assert_eq!(tokenize("  \t \r\n"), Vec::<String>::new());
    assert_eq!(tokenize("\u{a0}\u{2003}"), Vec::<String>::new());
}

#[test]
fn tokenize_single_word() {
    assert_eq!(tokenize("pwd"), owned(&["pwd"]));
    assert_eq!(tokenize("pwd\n"), owned(&["pwd"]));
    assert_eq!(tokenize("   pwd"), owned(&["pwd"]));
}

#[test]
fn tokenize_collapses_runs() {
    assert_eq!(tokenize("echo a  b   c\n"), owned(&["echo", "a", "b", "c"]));
    assert_eq!(tokenize("\techo\t\ta \n"), owned(&["echo", "a"]));
}

#[test]
fn tokenize_keeps_quotes_and_symbols_literal() {
    assert_eq!(tokenize("echo \"a  b\" 'c' $HOME"), owned(&["echo", "\"a", "b\"", "'c'", "$HOME"]));
}

#[test]
fn tokenize_agrees_with_std() {
    let lines = [
        "",
        " ",
        "a",
        " a",
        "a ",
        "a b",
        "  a  b  ",
        "type echo cat\n",
        "x\u{a0}y\u{2028}z",
        "\u{e9}t\u{e9} \u{4e2d}\u{6587}\u{3000}ok",
        "cd ~/src\r\n",
    ];
    for line in lines {
        let expected: Vec<String> = line.split_whitespace().map(|w| w.to_string()).collect();
        assert_eq!(tokenize(line), expected, "line {:?}", line);
    }
}

#[test]
fn tokenize_words_are_never_empty() {
    for word in tokenize("  a   bb \t ccc  ") {
        assert!(!word.is_empty());
        assert!(!word.chars().any(|c| c.is_whitespace()));
    }
}

#[test]
fn join_words_none() {
    assert_eq!(join_words(&[]), "");
}

#[test]
fn join_words_one() {
    assert_eq!(join_words(&owned(&["a"])), "a");
}

#[test]
fn join_words_several() {
    assert_eq!(join_words(&owned(&["a", "b", "c"])), "a b c");
    assert_eq!(join_words(&owned(&["", ""])), " ");
}

#[test]
fn split_without_separator() {
    assert_eq!(split("/usr/bin", ':'), owned(&["/usr/bin"]));
}

#[test]
fn split_empty_text_is_one_empty_piece() {
    assert_eq!(split("", ':'), owned(&[""]));
}

#[test]
fn split_keeps_empty_pieces() {
    assert_eq!(split(":/bin::/usr/bin:", ':'), owned(&["", "/bin", "", "/usr/bin", ""]));
}

#[test]
fn split_then_join_gives_text_back() {
    for text in ["", ":", "a", "a:b", ":a::b:", "/usr/local/bin:/usr/bin:/bin"] {
        assert_eq!(split(text, ':').join(":"), text);
    }
}

#[test]
fn copy_words_copies() {
    assert_eq!(copy_words(&owned(&["a", "", "c"])), owned(&["a", "", "c"]));
    assert_eq!(copy_words(&[]), Vec::<String>::new());
}
