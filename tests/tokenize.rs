use cargo_hdk::tokenize::tokenize;

fn toks(raw: &str) -> Vec<String> {
    tokenize(raw)
}

#[test]
fn empty_string_gives_no_arguments() {
    assert!(toks("").is_empty());
}

#[test]
fn bracketed_form_splits_on_whitespace() {
    assert_eq!(toks("[-G Ninja]"), vec!["-G", "Ninja"]);
}

#[test]
fn bracketed_form_ignores_quotes() {
    assert_eq!(toks("[-G \"Visual Studio\"]"), vec!["-G", "\"Visual", "Studio\""]);
}

#[test]
fn bracketed_form_drops_runs_of_whitespace() {
    assert_eq!(toks("[  a \t b  ]"), vec!["a", "b"]);
}

#[test]
fn empty_brackets_give_no_arguments() {
    assert!(toks("[]").is_empty());
}

#[test]
fn lone_bracket_is_an_argument() {
    assert_eq!(toks("["), vec!["["]);
}

#[test]
fn quoted_argument_keeps_whitespace() {
    assert_eq!(toks("-G \"Visual Studio 16\""), vec!["-G", "Visual Studio 16"]);
}

#[test]
fn adjacent_quoted_runs_join() {
    assert_eq!(toks("'a'\"b\""), vec!["ab"]);
}

#[test]
fn leading_whitespace_is_skipped() {
    assert_eq!(toks("  -X"), vec!["-X"]);
}

#[test]
fn single_quotes_may_hold_double_quotes() {
    assert_eq!(toks("-DNAME='say \"hi\"' x"), vec!["-DNAME=say \"hi\"", "x"]);
}

#[test]
fn unterminated_quote_runs_to_the_end() {
    assert_eq!(toks("-D 'a b"), vec!["-D", "a b"]);
}

#[test]
fn trailing_whitespace_adds_nothing() {
    assert_eq!(toks("a b  "), vec!["a", "b"]);
}

#[test]
fn unicode_whitespace_separates() {
    assert_eq!(toks("a\u{3000}b"), vec!["a", "b"]);
}
