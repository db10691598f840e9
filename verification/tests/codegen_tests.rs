use compiler_1::codegen::{c_codegen, to_native_type, CodegenError};
use compiler_1::lexer::{Token, Tokens};
use compiler_1::parser::{
    Ast, AssignmentStmts, Expression, FnSignature, Functions, ReturnStmts, Scope, Statement,
};

#[test]
fn type_mapping_matches_table() {
    assert_eq!(to_native_type("i32"), Some("int"));
    assert_eq!(to_native_type("bool"), Some("bool"));
    assert_eq!(to_native_type("char"), Some("char"));
}

#[test]
fn type_mapping_rejects_everything_else() {
    assert_eq!(to_native_type("i64"), None);
    assert_eq!(to_native_type("weirdtype"), None);
    assert_eq!(to_native_type(""), None);
    assert_eq!(to_native_type("int"), None);
}

fn value(token: Token) -> Expression {
    Expression::Value(Tokens { token, line: 0, loc: 0 })
}

fn one_function(scope: Scope) -> Ast {
    Ast {
        functions: vec![Functions {
            fn_signature: FnSignature {
                name: "f".to_string(),
                return_type: "i32".to_string(),
            },
            scope,
        }],
    }
}

#[test]
fn empty_program_is_only_the_prefix() {
    let out = c_codegen(Ast { functions: vec![] }).unwrap();
    assert_eq!(out, "#include <stdbool.h>\n");
}

#[test]
fn assignment_to_literal_is_invalid_lvalue() {
    let scope = Scope {
        stmts: vec![Statement::Assignment(AssignmentStmts {
            lhs: Tokens { token: Token::IntLit(1), line: 0, loc: 0 },
            rhs: value(Token::IntLit(2)),
        })],
        ret: Some(ReturnStmts { ret: value(Token::IntLit(0)) }),
    };
    assert_eq!(c_codegen(one_function(scope)), Err(CodegenError::InvalidLValue));
}

#[test]
fn punctuation_in_value_position_is_invalid_lvalue() {
    let scope = Scope {
        stmts: vec![],
        ret: Some(ReturnStmts { ret: value(Token::Plus) }),
    };
    assert_eq!(c_codegen(one_function(scope)), Err(CodegenError::InvalidLValue));
}

#[test]
fn unsupported_type_names_the_offender() {
    let ast = Ast {
        functions: vec![Functions {
            fn_signature: FnSignature {
                name: "f".to_string(),
                return_type: "quux".to_string(),
            },
            scope: Scope {
                stmts: vec![],
                ret: Some(ReturnStmts { ret: value(Token::IntLit(0)) }),
            },
        }],
    };
    assert_eq!(
        c_codegen(ast),
        Err(CodegenError::UnsupportedType("quux".to_string()))
    );
}

#[test]
fn nested_addition_renders_with_spaces() {
    let expr = Expression::Addition(
        Box::new(Expression::Addition(
            Box::new(value(Token::Ident("a".to_string()))),
            Box::new(value(Token::IntLit(-3))),
        )),
        Box::new(value(Token::IntLit(7))),
    );
    let scope = Scope { stmts: vec![], ret: Some(ReturnStmts { ret: expr }) };
    let out = c_codegen(one_function(scope)).unwrap();
    assert_eq!(out, "#include <stdbool.h>\nint f()\n{\n\treturn a + -3 + 7;\n}\n");
}

#[test]
fn extreme_literals_render_in_decimal() {
    let expr = Expression::Addition(
        Box::new(value(Token::IntLit(i32::MIN))),
        Box::new(value(Token::IntLit(i32::MAX))),
    );
    let scope = Scope { stmts: vec![], ret: Some(ReturnStmts { ret: expr }) };
    let out = c_codegen(one_function(scope)).unwrap();
    assert_eq!(
        out,
        "#include <stdbool.h>\nint f()\n{\n\treturn -2147483648 + 2147483647;\n}\n"
    );
}

#[test]
fn scope_without_terminal_return_renders_no_return_line() {
    let scope = Scope {
        stmts: vec![Statement::Assignment(AssignmentStmts {
            lhs: Tokens { token: Token::Ident("x".to_string()), line: 0, loc: 0 },
            rhs: value(Token::IntLit(2)),
        })],
        ret: None,
    };
    let out = c_codegen(one_function(scope)).unwrap();
    assert_eq!(out, "#include <stdbool.h>\nint f()\n{\n\tx = 2;\n}\n");
}
