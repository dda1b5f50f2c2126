use sorted_locks::mode::Mode;
use sorted_locks::parse::Error;
use sorted_locks::token::Token;
use sorted_locks::{sorted_locks, sorted_locks_text};

fn ident(s: &str) -> Token {
    Token::Ident(String::from(s))
}

fn comma() -> Token {
    Token::Punct(',')
}

#[test]
fn end_to_end_example() {
    let tokens = vec![
        ident("beta"),
        ident("write"),
        comma(),
        ident("alpha"),
        ident("read"),
        comma(),
        ident("alpha"),
        ident("lock"),
    ];
    let stmts = sorted_locks(&tokens).unwrap();
    assert_eq!(stmts.len(), 3);
    assert_eq!(stmts[0].target, "alpha");
    assert_eq!(stmts[0].mode, Mode::Read);
    assert_eq!(stmts[1].target, "alpha");
    assert_eq!(stmts[1].mode, Mode::Lock);
    assert_eq!(stmts[2].target, "beta");
    assert_eq!(stmts[2].mode, Mode::Write);
    let text = sorted_locks_text(&tokens).unwrap();
    assert_eq!(
        text,
        "let alpha = self.alpha.read().expect(\"must read\");\n\
         let mut alpha = self.alpha.lock().expect(\"must get lock\");\n\
         let mut beta = self.beta.write().expect(\"must write\");\n"
    );
}

#[test]
fn empty_input_yields_empty_output() {
    let tokens: Vec<Token> = vec![];
    let stmts = sorted_locks(&tokens).unwrap();
    assert_eq!(stmts.len(), 0);
    assert_eq!(sorted_locks_text(&tokens).unwrap(), "");
}

#[test]
fn rerun_is_byte_identical() {
    let tokens = vec![
        ident("gamma"),
        ident("lock"),
        comma(),
        ident("delta"),
        ident("readclone"),
    ];
    let first = sorted_locks_text(&tokens).unwrap();
    let second = sorted_locks_text(&tokens).unwrap();
    assert_eq!(first.as_bytes(), second.as_bytes());
}

#[test]
fn trailing_comma_accepted() {
    let tokens = vec![ident("a"), ident("read"), comma()];
    let text = sorted_locks_text(&tokens).unwrap();
    assert_eq!(text, "let a = self.a.read().expect(\"must read\");\n");
}

#[test]
fn duplicates_kept_not_merged() {
    let tokens = vec![ident("a"), ident("read"), comma(), ident("a"), ident("read")];
    let stmts = sorted_locks(&tokens).unwrap();
    assert_eq!(stmts.len(), 2);
    assert_eq!(stmts[0].target, "a");
    assert_eq!(stmts[1].target, "a");
    assert_eq!(stmts[0].mode, Mode::Read);
    assert_eq!(stmts[1].mode, Mode::Read);
}

#[test]
fn statement_text_per_mode() {
    let cases = [
        ("read", "let r = self.r.read().expect(\"must read\");\n"),
        ("readclone", "let r = self.r.read().expect(\"must read\").clone();\n"),
        ("write", "let mut r = self.r.write().expect(\"must write\");\n"),
        ("lock", "let mut r = self.r.lock().expect(\"must get lock\");\n"),
    ];
    for (kw, expected) in cases {
        let tokens = vec![ident("r"), ident(kw)];
        assert_eq!(sorted_locks_text(&tokens).unwrap(), expected);
    }
}

#[test]
fn unknown_mode_is_rejected() {
    let tokens = vec![ident("x"), ident("bogus")];
    assert_eq!(sorted_locks(&tokens).unwrap_err(), Error::UnknownMode);
    assert_eq!(sorted_locks_text(&tokens).unwrap_err(), Error::UnknownMode);
}

#[test]
fn mode_keywords_are_case_sensitive() {
    let tokens = vec![ident("x"), ident("Read")];
    assert_eq!(sorted_locks(&tokens).unwrap_err(), Error::UnknownMode);
}

#[test]
fn lone_name_is_rejected() {
    let tokens = vec![ident("x")];
    assert_eq!(sorted_locks(&tokens).unwrap_err(), Error::Grammar);
}

#[test]
fn truncated_trailing_group_is_rejected() {
    let tokens = vec![ident("x"), ident("read"), comma(), ident("y")];
    assert_eq!(sorted_locks(&tokens).unwrap_err(), Error::Grammar);
}

#[test]
fn wrong_separator_is_rejected() {
    let tokens = vec![ident("x"), ident("read"), Token::Punct(';'), ident("y"), ident("write")];
    assert_eq!(sorted_locks(&tokens).unwrap_err(), Error::Separator);
}

#[test]
fn missing_separator_mid_input_is_rejected() {
    let tokens = vec![ident("x"), ident("read"), ident("y"), ident("write")];
    assert_eq!(sorted_locks(&tokens).unwrap_err(), Error::Grammar);
}

#[test]
fn non_identifier_name_is_rejected() {
    let tokens = vec![Token::Other, ident("read")];
    assert_eq!(sorted_locks(&tokens).unwrap_err(), Error::Grammar);
}

#[test]
fn non_identifier_mode_is_rejected() {
    let tokens = vec![ident("x"), comma()];
    assert_eq!(sorted_locks(&tokens).unwrap_err(), Error::Grammar);
}

#[test]
fn separator_errors_checked_before_mode() {
    // The separator of a group is checked before its mode keyword, so a
    // bad separator wins over a bad mode in the same group.
    let tokens = vec![ident("x"), ident("bogus"), Token::Punct(';')];
    assert_eq!(sorted_locks(&tokens).unwrap_err(), Error::Separator);
}

#[test]
fn error_messages_name_the_grammar() {
    assert_eq!(Error::Grammar.message(), "Must be \"<target> <mode> [,]\"");
    assert_eq!(Error::Separator.message(), "Must be \"<target> <mode> [,]\"");
    assert_eq!(Error::UnknownMode.message(), "mode must be read|readclone|write|lock");
}

#[test]
fn mode_from_text_recognises_exactly_four_keywords() {
    assert_eq!(Mode::from_text("read"), Some(Mode::Read));
    assert_eq!(Mode::from_text("readclone"), Some(Mode::ReadClone));
    assert_eq!(Mode::from_text("write"), Some(Mode::Write));
    assert_eq!(Mode::from_text("lock"), Some(Mode::Lock));
    assert_eq!(Mode::from_text("readClone"), None);
    assert_eq!(Mode::from_text(""), None);
    assert_eq!(Mode::from_text("rea"), None);
    assert_eq!(Mode::from_text("reader"), None);
}
