use fspipe::lex::{chars_of, lex, Token};
use fspipe::parse::{parse, quote, unquote, ASTNode};

/// Writes a tree out in a fixed form, to compare it by.
fn show(node: &ASTNode) -> String {
    match node {
        ASTNode::Word(s) => format!("w({})", s),
        ASTNode::Command(c) => {
            let args: Vec<String> = c.args.iter().map(show).collect();
            format!("c({};{})", c.name, args.join(","))
        }
        ASTNode::Pipe(left, c) => {
            let args: Vec<String> = c.args.iter().map(show).collect();
            format!("p({}|{};{})", show(left), c.name, args.join(","))
        }
    }
}

fn parsed(s: &str) -> String {
    show(&parse(s).unwrap())
}

#[test]
fn a_command_with_a_word() {
    assert_eq!(parsed("walk /tmp"), "c(walk;w(/tmp))");
}

#[test]
fn a_pipe_holds_what_is_left_of_it() {
    assert_eq!(parsed("walk /tmp | print"), "p(c(walk;w(/tmp))|print;)");
    assert_eq!(parsed("a | b x | c"), "p(p(c(a;)|b;w(x))|c;)");
}

#[test]
fn braces_hold_a_pipeline() {
    assert_eq!(parsed("filter {mode d}"), "c(filter;c(mode;w(d)))");
    assert_eq!(parsed("f {a | b} z"), "c(f;p(c(a;)|b;),w(z))");
}

#[test]
fn a_quoted_argument_loses_its_quotes_and_a_quoted_name_keeps_them() {
    assert_eq!(parsed("a 'it''s'"), "c(a;w(it's))");
    assert_eq!(parsed("'q' x"), "c('q';w(x))");
    assert_eq!(parsed("a ''"), "c(a;w())");
}

#[test]
fn what_is_behind_a_stray_closing_brace_is_not_read() {
    assert_eq!(parsed("a }  junk |"), "c(a;)");
}

#[test]
fn what_is_no_pipeline_is_refused() {
    for s in ["", "   ", "a | | b", "a {b", "a + b", "| a", "{a}", "a 'open", "a\nb"] {
        assert!(parse(s).is_err(), "{:?} was read", s);
    }
}

#[test]
fn a_plus_sign_is_no_token() {
    assert!(parse("filter {mode +d}").is_err());
}

#[test]
fn tokens_with_their_places() {
    let toks = lex(&chars_of("ab/1 |{'x''y'}\t+"));
    let got: Vec<(Token, usize, usize)> = toks.iter().map(|t| (t.token, t.from, t.to)).collect();
    assert_eq!(
        got,
        vec![
            (Token::Word, 0, 4),
            (Token::Pipe, 5, 6),
            (Token::OpenCurly, 6, 7),
            (Token::QuotedWord, 7, 13),
            (Token::CloseCurly, 13, 14),
            (Token::Error, 15, 16),
        ]
    );
}

#[test]
fn places_count_characters_not_bytes() {
    let toks = lex(&chars_of("'é' a"));
    let got: Vec<(Token, usize, usize)> = toks.iter().map(|t| (t.token, t.from, t.to)).collect();
    assert_eq!(got, vec![(Token::QuotedWord, 0, 3), (Token::Word, 4, 5)]);
    assert_eq!(parsed("x 'é'"), "c(x;w(é))");
}

#[test]
fn unquote_takes_a_doubled_quote_as_one() {
    assert_eq!(unquote("'a''b'"), "a'b");
    assert_eq!(unquote("''''"), "'");
    assert_eq!(unquote("'''"), "'");
    assert_eq!(unquote("'''''"), "''");
    assert_eq!(unquote("''"), "");
}

#[test]
fn quote_doubles_each_quote_and_adds_none() {
    assert_eq!(quote("plain"), "plain");
    assert_eq!(quote("it's"), "it''s");
    assert_eq!(quote("''"), "''''");
    assert_eq!(quote(""), "");
}

fn text(s: &str) -> String {
    parse(s).unwrap().to_text()
}

#[test]
fn an_expression_written_out() {
    assert_eq!(text("walk   /tmp"), "walk /tmp");
    assert_eq!(text("a | b x|c"), "a | b x | c");
    assert_eq!(text("filter {mode d} z"), "filter {mode d} z");
    assert_eq!(text("f {a|b}"), "f a | b");
    assert_eq!(text("a 'it''s'"), "a it''s");
    assert_eq!(text("'q' x"), "''q'' x");
    assert_eq!(text("a ''"), "a ");
}
