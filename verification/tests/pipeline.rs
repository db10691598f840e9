use compiler_1::codegen::CodegenError;
use compiler_1::compile_source;
use compiler_1::parser::ParseError;
use compiler_1::CompileError;

fn compile(src: &str) -> Result<String, CompileError> {
    let lines: Vec<String> = src.lines().map(|l| l.to_string()).collect();
    compile_source(&lines)
}

#[test]
fn single_return_function_generates_c() {
    let out = compile("fn main() -> i32 { return 2 + 3; }").unwrap();
    assert_eq!(out, "#include <stdbool.h>\nint main()\n{\n\treturn 2 + 3;\n}\n");
}

#[test]
fn const_declaration_then_return() {
    let out = compile("fn f() -> i32 { const x: i32 = 5; return x; }").unwrap();
    assert_eq!(out, "#include <stdbool.h>\nint f()\n{\n\tint x = 5;\n\treturn x;\n}\n");
}

#[test]
fn declaration_assignment_return_in_order() {
    let out = compile("fn g() -> i32 { mut y: i32 = 1; y = 2; return y; }").unwrap();
    assert_eq!(
        out,
        "#include <stdbool.h>\nint g()\n{\n\tint y = 1;\n\ty = 2;\n\treturn y;\n}\n"
    );
}

#[test]
fn unclosed_brace_is_unbalanced() {
    let r = compile("fn bad() -> i32 { return 1;");
    assert_eq!(r, Err(CompileError::Parse(ParseError::UnbalancedBraces)));
}

#[test]
fn stray_closing_brace_is_unbalanced() {
    let r = compile("}");
    assert_eq!(r, Err(CompileError::Parse(ParseError::UnbalancedBraces)));
}

#[test]
fn bool_function_returning_literal_compiles() {
    let out = compile("fn h() -> bool { return 1; }").unwrap();
    assert_eq!(out, "#include <stdbool.h>\nbool h()\n{\n\treturn 1;\n}\n");
}

#[test]
fn unknown_return_type_is_unsupported() {
    let r = compile("fn h() -> weirdtype { return 1; }");
    assert_eq!(
        r,
        Err(CompileError::Codegen(CodegenError::UnsupportedType(
            "weirdtype".to_string()
        )))
    );
}

#[test]
fn missing_terminal_return_is_rejected() {
    let r = compile("fn f() -> i32 { mut y: i32 = 1; y = 2; }");
    assert_eq!(r, Err(CompileError::Parse(ParseError::MissingReturn)));
}

#[test]
fn compiling_twice_is_byte_identical() {
    let src = "fn main() -> i32 { const a: i32 = 40; return a + 2; }";
    let first = compile(src);
    let second = compile(src);
    assert_eq!(first, second);
    assert!(first.is_ok());
}

#[test]
fn two_functions_generate_in_order() {
    let out = compile("fn a() -> i32 { return 1; } fn b() -> char { return c; }").unwrap();
    assert_eq!(
        out,
        "#include <stdbool.h>\nint a()\n{\n\treturn 1;\n}\nchar b()\n{\n\treturn c;\n}\n"
    );
}

#[test]
fn multi_line_source_compiles() {
    let out = compile("fn main() -> i32\n{\n    return 2 + 3;\n}\n").unwrap();
    assert_eq!(out, "#include <stdbool.h>\nint main()\n{\n\treturn 2 + 3;\n}\n");
}

#[test]
fn chained_addition_renders_flat() {
    let out = compile("fn s() -> i32 { return 1 + 2 + 3; }").unwrap();
    assert_eq!(out, "#include <stdbool.h>\nint s()\n{\n\treturn 1 + 2 + 3;\n}\n");
}

#[test]
fn lex_failure_aborts_the_compile() {
    let r = compile("fn m() -> i32 { return $; }");
    match r {
        Err(CompileError::Lex(e)) => {
            assert_eq!(e.line, 0);
            assert_eq!(e.col, 23);
        }
        other => panic!("expected a lex failure, got {:?}", other),
    }
}

#[test]
fn negative_literal_round_trips() {
    let out = compile("fn n() -> i32 { return -12; }").unwrap();
    assert_eq!(out, "#include <stdbool.h>\nint n()\n{\n\treturn -12;\n}\n");
}
