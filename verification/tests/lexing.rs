use compiler_1::lexer::{lex_lines, lexical_analysis, LexErrorKind, LexerError, Token, Tokens};

fn lex_one(line: &str) -> Result<Vec<Tokens>, LexerError> {
    lex_lines(0, line.to_string())
}

fn kinds(toks: &[Tokens]) -> Vec<Token> {
    toks.iter().map(|t| t.token.clone()).collect()
}

#[test]
fn scenario_line_lexes_to_expected_tokens() {
    let toks = lex_one("fn main() -> i32 { return 2 + 3; }").unwrap();
    assert_eq!(
        kinds(&toks),
        vec![
            Token::Fn,
            Token::Ident("main".to_string()),
            Token::LParen,
            Token::RParen,
            Token::Arrow,
            Token::Ident("i32".to_string()),
            Token::LBrace,
            Token::Return,
            Token::IntLit(2),
            Token::Plus,
            Token::IntLit(3),
            Token::Semi,
            Token::RBrace,
        ]
    );
}

#[test]
fn columns_and_lines_are_recorded() {
    let toks = lex_lines(3, "x = 17;".to_string()).unwrap();
    assert_eq!(toks.len(), 4);
    assert_eq!((toks[0].line, toks[0].loc), (3, 0));
    assert_eq!(toks[0].token, Token::Ident("x".to_string()));
    assert_eq!((toks[1].line, toks[1].loc), (3, 2));
    assert_eq!(toks[1].token, Token::Eq);
    assert_eq!((toks[2].line, toks[2].loc), (3, 4));
    assert_eq!(toks[2].token, Token::IntLit(17));
    assert_eq!((toks[3].line, toks[3].loc), (3, 6));
    assert_eq!(toks[3].token, Token::Semi);
}

#[test]
fn arrow_is_lexed_by_maximal_munch() {
    let toks = lex_one("->").unwrap();
    assert_eq!(kinds(&toks), vec![Token::Arrow]);
}

#[test]
fn full_literal_is_parsed_not_truncated() {
    let toks = lex_one("return 427;").unwrap();
    assert_eq!(
        kinds(&toks),
        vec![Token::Return, Token::IntLit(427), Token::Semi]
    );
}

#[test]
fn negative_literal_is_one_token() {
    let toks = lex_one("y = -5;").unwrap();
    assert_eq!(
        kinds(&toks),
        vec![
            Token::Ident("y".to_string()),
            Token::Eq,
            Token::IntLit(-5),
            Token::Semi,
        ]
    );
}

#[test]
fn extreme_literals_fit_or_fail() {
    let ok = lex_one("-2147483648").unwrap();
    assert_eq!(kinds(&ok), vec![Token::IntLit(i32::MIN)]);
    let ok = lex_one("2147483647").unwrap();
    assert_eq!(kinds(&ok), vec![Token::IntLit(i32::MAX)]);
    let err = lex_one("2147483648").unwrap_err();
    assert_eq!(err.reason, LexErrorKind::InvalidNumericLiteral);
    let err = lex_one("-2147483649").unwrap_err();
    assert_eq!(err.reason, LexErrorKind::InvalidNumericLiteral);
}

#[test]
fn oversized_literal_position_is_reported() {
    let err = lex_one("x = 99999999999;").unwrap_err();
    assert_eq!(err.line, 0);
    assert_eq!(err.col, 4);
    assert_eq!(err.reason, LexErrorKind::InvalidNumericLiteral);
}

#[test]
fn bad_identifier_start_is_rejected() {
    let err = lex_one("$x = 1;").unwrap_err();
    assert_eq!(err.reason, LexErrorKind::InvalidIdentifier);
    assert_eq!(err.col, 0);
}

#[test]
fn bad_identifier_interior_is_rejected() {
    let err = lex_one("a$b = 1;").unwrap_err();
    assert_eq!(err.reason, LexErrorKind::InvalidCharacterSequence);
}

#[test]
fn underscore_and_digits_make_identifiers() {
    let toks = lex_one("_tmp9 = 1;").unwrap();
    assert_eq!(toks[0].token, Token::Ident("_tmp9".to_string()));
}

#[test]
fn whitespace_only_flushes_nothing() {
    let toks = lex_one("  \t ").unwrap();
    assert!(toks.is_empty());
}

#[test]
fn source_lines_are_numbered_in_order() {
    let lines = vec!["fn a() -> i32".to_string(), "{ return 1; }".to_string()];
    let toks = lexical_analysis(&lines).unwrap();
    assert_eq!(toks.len(), 11);
    assert_eq!(toks[0].line, 0);
    assert_eq!(toks[6].line, 1);
    assert_eq!(toks[6].token, Token::LBrace);
}

#[test]
fn keywords_win_over_identifiers() {
    let toks = lex_one("const mut return fn").unwrap();
    assert_eq!(
        kinds(&toks),
        vec![Token::Const, Token::Mut, Token::Return, Token::Fn]
    );
}
