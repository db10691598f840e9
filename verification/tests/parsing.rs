use compiler_1::lexer::{lexical_analysis, Token, Tokens};
use compiler_1::parser::{parse_toplevel, Ast, ParseError, Statement};

fn parse(src: &str) -> Result<Ast, ParseError> {
    let lines: Vec<String> = src.lines().map(|l| l.to_string()).collect();
    parse_toplevel(lexical_analysis(&lines).unwrap())
}

#[test]
fn scope_holds_const_declaration_and_terminal_return() {
    let ast = parse("fn f() -> i32 { const x: i32 = 5; return x; }").unwrap();
    assert_eq!(ast.functions.len(), 1);
    let func = &ast.functions[0];
    assert_eq!(func.fn_signature.name, "f");
    assert_eq!(func.fn_signature.return_type, "i32");
    assert_eq!(func.scope.stmts.len(), 1);
    assert!(matches!(func.scope.stmts[0], Statement::ConstDeclaration(_)));
    let ret = func.scope.ret.as_ref().unwrap();
    match &ret.ret {
        compiler_1::parser::Expression::Value(t) => {
            assert_eq!(t.token, Token::Ident("x".to_string()));
        }
        other => panic!("unexpected return expression {:?}", other),
    }
}

#[test]
fn one_function_per_top_level_group() {
    let ast = parse(
        "fn a() -> i32 { return 1; } fn b() -> i32 { return 2; } fn c() -> i32 { return 3; }",
    )
    .unwrap();
    assert_eq!(ast.functions.len(), 3);
    assert_eq!(ast.functions[0].fn_signature.name, "a");
    assert_eq!(ast.functions[1].fn_signature.name, "b");
    assert_eq!(ast.functions[2].fn_signature.name, "c");
}

#[test]
fn statement_order_is_preserved() {
    let ast = parse("fn g() -> i32 { mut y: i32 = 1; y = 2; return y; }").unwrap();
    let scope = &ast.functions[0].scope;
    assert_eq!(scope.stmts.len(), 2);
    assert!(matches!(scope.stmts[0], Statement::MutDeclaration(_)));
    assert!(matches!(scope.stmts[1], Statement::Assignment(_)));
    assert!(scope.ret.is_some());
}

#[test]
fn body_of_only_a_return_is_legal() {
    let ast = parse("fn r() -> i32 { return 7; }").unwrap();
    let scope = &ast.functions[0].scope;
    assert!(scope.stmts.is_empty());
    assert!(scope.ret.is_some());
}

#[test]
fn empty_scope_is_rejected() {
    assert_eq!(parse("fn e() -> i32 { }"), Err(ParseError::EmptyScope));
}

#[test]
fn parameters_are_rejected() {
    assert_eq!(
        parse("fn f(x) -> i32 { return x; }"),
        Err(ParseError::InvalidSignature)
    );
}

#[test]
fn signature_without_arrow_is_rejected() {
    assert_eq!(
        parse("fn f() i32 { return 1; }"),
        Err(ParseError::InvalidSignature)
    );
}

#[test]
fn non_final_return_is_rejected() {
    assert_eq!(
        parse("fn f() -> i32 { return 1; return 2; }"),
        Err(ParseError::UnexpectedToken)
    );
}

#[test]
fn fn_inside_open_group_is_rejected() {
    assert_eq!(
        parse("fn a() -> i32 fn b() -> i32 { return 1; }"),
        Err(ParseError::UnexpectedToken)
    );
}

#[test]
fn trailing_tokens_are_rejected() {
    assert_eq!(
        parse("fn a() -> i32 { return 1; } fn"),
        Err(ParseError::UnexpectedToken)
    );
}

#[test]
fn statement_without_semicolon_is_rejected() {
    assert_eq!(
        parse("fn f() -> i32 { return 1 }"),
        Err(ParseError::UnexpectedToken)
    );
}

#[test]
fn multi_token_run_without_plus_is_rejected() {
    assert_eq!(
        parse("fn f() -> i32 { return 1 2; }"),
        Err(ParseError::UnexpectedToken)
    );
}

#[test]
fn assignment_needs_identifier_target() {
    assert_eq!(
        parse("fn f() -> i32 { 1 = 2; return 1; }"),
        Err(ParseError::UnexpectedToken)
    );
}

#[test]
fn void_function_must_not_return() {
    assert_eq!(
        parse("fn v() -> void { x = 1; return 1; }"),
        Err(ParseError::UnexpectedToken)
    );
}

#[test]
fn void_function_without_return_parses() {
    let ast = parse("fn v() -> void { x = 1; }").unwrap();
    let scope = &ast.functions[0].scope;
    assert_eq!(scope.stmts.len(), 1);
    assert!(scope.ret.is_none());
}

#[test]
fn empty_token_stream_is_empty_program() {
    let ast = parse_toplevel(Vec::<Tokens>::new()).unwrap();
    assert!(ast.functions.is_empty());
}

#[test]
fn deeply_nested_stray_braces_are_rejected() {
    // nested braces survive grouping but no statement grammar accepts them
    assert_eq!(
        parse("fn f() -> i32 { { } return 1; }"),
        Err(ParseError::UnexpectedToken)
    );
}
