//! Code generation: an abstract syntax tree to C source text.
//!
//! Each function renders as `<mapped-type> <name>()` over a braced body,
//! one line per statement, with the terminal return last. Declared type
//! names resolve through a fixed mapping table; a name outside the table
//! fails with `UnsupportedType`. The emitted file always begins with the
//! fixed standard-declaration prefix. Every executable function is proved
//! to emit exactly the characters the `spec_render_*` functions describe.

use vstd::prelude::*;
use crate::lexer::{Token, TokenModel, TokensModel};
use crate::parser::{
    AssignmentStmts, Ast, AstModel, DeclarationStmts, Declarations, DeclModel, DeclStmtModel,
    ExprModel, Expression, FnSignature, FunctionModel, Functions, ReturnStmts, Scope, ScopeModel,
    SigModel, Statement, StmtModel,
};
use crate::text::{chars_to_string, push_str_chars, str_eq};

verus! {

/// A code-generation failure: a declared type name outside the mapping
/// table, or a value position that no identifier or literal fills.
#[derive(Debug, PartialEq, Eq)]
pub enum CodegenError {
    UnsupportedType(String),
    InvalidLValue,
}

/// Mathematical model of a code-generation failure.
pub ghost enum CodegenErrorModel {
    UnsupportedType(Seq<char>),
    InvalidLValue,
}

impl View for CodegenError {
    type V = CodegenErrorModel;

    open spec fn view(&self) -> CodegenErrorModel {
        match self {
            CodegenError::UnsupportedType(t) => CodegenErrorModel::UnsupportedType(t@),
            CodegenError::InvalidLValue => CodegenErrorModel::InvalidLValue,
        }
    }
}

/// Fixed C type spelling for a source type name: the mapping is total on
/// the supported primitive types and undefined elsewhere.
pub open spec fn spec_native_type(t: Seq<char>) -> Option<Seq<char>> {
    if t == "i32"@ {
        Some("int"@)
    } else if t == "bool"@ {
        Some("bool"@)
    } else if t == "char"@ {
        Some("char"@)
    } else {
        None
    }
}

/// The type-mapping table is a total function on the supported-type set
/// (`i32`, `bool`, `char`, with their exact C spellings) and rejects every
/// other type name.
pub proof fn lemma_type_mapping_total()
    ensures
        spec_native_type("i32"@) == Some("int"@),
        spec_native_type("bool"@) == Some("bool"@),
        spec_native_type("char"@) == Some("char"@),
        forall|t: Seq<char>|
            t != "i32"@ && t != "bool"@ && t != "char"@ ==> #[trigger] spec_native_type(t)
                is None,
{
    reveal_strlit("i32");
    reveal_strlit("bool");
    reveal_strlit("char");
    reveal_strlit("int");
}

/// Maps a source type name to its C spelling.
pub fn to_native_type<'a>(t: &'a str) -> (r: Option<&'a str>)
    ensures
        match r {
            Some(s) => spec_native_type(t@) == Some(s@),
            None => spec_native_type(t@) is None,
        },
{
    if str_eq(t, "i32") {
        Some("int")
    } else if str_eq(t, "bool") {
        Some("bool")
    } else if str_eq(t, "char") {
        Some("char")
    } else {
        None
    }
}

// ---------------------------------------------------------------------------
// Integer rendering
// ---------------------------------------------------------------------------

pub open spec fn digit_char(d: int) -> char {
    if d == 0 { '0' } else if d == 1 { '1' } else if d == 2 { '2' } else if d == 3 { '3' }
    else if d == 4 { '4' } else if d == 5 { '5' } else if d == 6 { '6' } else if d == 7 { '7' }
    else if d == 8 { '8' } else { '9' }
}

/// Decimal digits of a non-negative integer, most significant first.
pub open spec fn dec_digits(n: int) -> Seq<char>
    decreases n,
{
    if n < 10 {
        seq![digit_char(n)]
    } else {
        dec_digits(n / 10).push(digit_char(n % 10))
    }
}

/// Decimal text of a signed integer.
pub open spec fn render_int(v: int) -> Seq<char> {
    if v < 0 {
        seq!['-'] + dec_digits(-v)
    } else {
        dec_digits(v)
    }
}

fn digit_char_exec(d: u32) -> (c: char)
    requires
        d < 10,
    ensures
        c == digit_char(d as int),
{
    if d == 0 { '0' } else if d == 1 { '1' } else if d == 2 { '2' } else if d == 3 { '3' }
    else if d == 4 { '4' } else if d == 5 { '5' } else if d == 6 { '6' } else if d == 7 { '7' }
    else if d == 8 { '8' } else { '9' }
}

fn push_dec_digits(out: &mut Vec<char>, n: u32) -> (r: ())
    ensures
        final(out)@ == old(out)@ + dec_digits(n as int),
    decreases n,
{
    if n < 10 {
        out.push(digit_char_exec(n));
        assert(old(out)@.push(digit_char(n as int)) =~= old(out)@ + dec_digits(n as int));
    } else {
        push_dec_digits(out, n / 10);
        out.push(digit_char_exec(n % 10));
        assert((old(out)@ + dec_digits(n as int / 10)).push(digit_char(n as int % 10))
            =~= old(out)@ + dec_digits(n as int));
    }
}

/// Appends the decimal text of a 32-bit integer.
fn push_int(out: &mut Vec<char>, v: i32) -> (r: ())
    ensures
        final(out)@ == old(out)@ + render_int(v as int),
{
    if v < 0 {
        out.push('-');
        let mag_wide: i64 = -(v as i64);
        assert(0 < mag_wide <= 0x8000_0000);
        let mag: u32 = mag_wide as u32;
        push_dec_digits(out, mag);
        assert(old(out)@.push('-') + dec_digits(mag as int) =~= old(out)@ + render_int(
            v as int,
        ));
    } else {
        push_dec_digits(out, v as u32);
    }
}

// ---------------------------------------------------------------------------
// Rendering, specified
// ---------------------------------------------------------------------------

/// A value position renders as the identifier text or the literal's decimal
/// text; any other token cannot stand for a value.
pub open spec fn spec_render_value(t: TokensModel) -> Result<Seq<char>, CodegenErrorModel> {
    match t.token {
        TokenModel::Ident(s) => Ok(s),
        TokenModel::IntLit(n) => Ok(render_int(n)),
        _ => Err(CodegenErrorModel::InvalidLValue),
    }
}

pub open spec fn spec_render_expr(e: ExprModel) -> Result<Seq<char>, CodegenErrorModel>
    decreases e,
{
    match e {
        ExprModel::Value(t) => spec_render_value(t),
        ExprModel::Addition(l, r) => match spec_render_expr(*l) {
            Err(er) => Err(er),
            Ok(ls) => match spec_render_expr(*r) {
                Err(er) => Err(er),
                Ok(rs) => Ok(ls + " + "@ + rs),
            },
        },
    }
}

/// The binding part of a declaration line: mapped type, space, identifier.
pub open spec fn spec_render_binding(d: DeclModel) -> Result<Seq<char>, CodegenErrorModel> {
    match spec_native_type(d.data_type) {
        None => Err(CodegenErrorModel::UnsupportedType(d.data_type)),
        Some(ty) => Ok(ty + " "@ + d.ident),
    }
}

/// A declaration statement line; mutable and constant declarations render
/// identically in the target.
pub open spec fn spec_render_decl_line(d: DeclStmtModel) -> Result<Seq<char>, CodegenErrorModel> {
    match spec_render_binding(d.lhs) {
        Err(er) => Err(er),
        Ok(bs) => match spec_render_expr(d.rhs) {
            Err(er) => Err(er),
            Ok(es) => Ok("\t"@ + bs + " = "@ + es + ";\n"@),
        },
    }
}

/// A return line.
pub open spec fn spec_render_return(e: ExprModel) -> Result<Seq<char>, CodegenErrorModel> {
    match spec_render_expr(e) {
        Err(er) => Err(er),
        Ok(es) => Ok("\treturn "@ + es + ";\n"@),
    }
}

/// An assignment line: the target must be an identifier token.
pub open spec fn spec_render_assignment(a: crate::parser::AssignModel) -> Result<
    Seq<char>,
    CodegenErrorModel,
> {
    match a.lhs.token {
        TokenModel::Ident(name) => match spec_render_expr(a.rhs) {
            Err(er) => Err(er),
            Ok(es) => Ok("\t"@ + name + " = "@ + es + ";\n"@),
        },
        _ => Err(CodegenErrorModel::InvalidLValue),
    }
}

pub open spec fn spec_render_stmt(s: StmtModel) -> Result<Seq<char>, CodegenErrorModel> {
    match s {
        StmtModel::Return(e) => spec_render_return(e),
        StmtModel::Assignment(a) => spec_render_assignment(a),
        StmtModel::MutDeclaration(d) => spec_render_decl_line(d),
        StmtModel::ConstDeclaration(d) => spec_render_decl_line(d),
    }
}

/// The statement lines of a scope, in order, first failure first.
pub open spec fn spec_render_stmts_from(
    ss: Seq<StmtModel>,
    i: int,
    acc: Seq<char>,
) -> Result<Seq<char>, CodegenErrorModel>
    decreases ss.len() - i,
{
    if i < 0 || i >= ss.len() {
        Ok(acc)
    } else {
        match spec_render_stmt(ss[i]) {
            Err(er) => Err(er),
            Ok(s) => spec_render_stmts_from(ss, i + 1, acc + s),
        }
    }
}

/// A braced scope body: statements in order, then the terminal return line.
pub open spec fn spec_render_scope(sc: ScopeModel) -> Result<Seq<char>, CodegenErrorModel> {
    match spec_render_stmts_from(sc.stmts, 0, Seq::empty()) {
        Err(er) => Err(er),
        Ok(body) => match sc.ret {
            Some(e) => match spec_render_return(e) {
                Err(er) => Err(er),
                Ok(rs) => Ok("{\n"@ + body + rs + "}\n"@),
            },
            None => Ok("{\n"@ + body + "}\n"@),
        },
    }
}

/// A signature: mapped return type, space, name, empty parameter list.
pub open spec fn spec_render_signature(sig: SigModel) -> Result<Seq<char>, CodegenErrorModel> {
    match spec_native_type(sig.return_type) {
        None => Err(CodegenErrorModel::UnsupportedType(sig.return_type)),
        Some(ty) => Ok(ty + " "@ + sig.name + "()"@),
    }
}

pub open spec fn spec_render_function(f: FunctionModel) -> Result<Seq<char>, CodegenErrorModel> {
    match spec_render_signature(f.fn_signature) {
        Err(er) => Err(er),
        Ok(ss) => match spec_render_scope(f.scope) {
            Err(er) => Err(er),
            Ok(sc) => Ok(ss + "\n"@ + sc),
        },
    }
}

pub open spec fn spec_render_functions_from(
    fs: Seq<FunctionModel>,
    i: int,
    acc: Seq<char>,
) -> Result<Seq<char>, CodegenErrorModel>
    decreases fs.len() - i,
{
    if i < 0 || i >= fs.len() {
        Ok(acc)
    } else {
        match spec_render_function(fs[i]) {
            Err(er) => Err(er),
            Ok(s) => spec_render_functions_from(fs, i + 1, acc + s),
        }
    }
}

/// What generating C for a whole program yields: the fixed include prefix,
/// then each function's text in order.
pub open spec fn spec_c_codegen(p: AstModel) -> Result<Seq<char>, CodegenErrorModel> {
    match spec_render_functions_from(p.functions, 0, Seq::empty()) {
        Err(er) => Err(er),
        Ok(body) => Ok("#include <stdbool.h>\n"@ + body),
    }
}

// ---------------------------------------------------------------------------
// Executable code generator
// ---------------------------------------------------------------------------

fn codegen_expression(expr: &Expression, out: &mut Vec<char>) -> (r: Result<(), CodegenError>)
    ensures
        match spec_render_expr(expr@) {
            Ok(s) => r is Ok && final(out)@ == old(out)@ + s,
            Err(er) => r matches Err(e) && e@ == er,
        },
    decreases *expr,
{
    match expr {
        Expression::Value(t) => match &t.token {
            Token::Ident(s) => {
                push_str_chars(out, s.as_str());
                Ok(())
            },
            Token::IntLit(n) => {
                push_int(out, *n);
                Ok(())
            },
            _ => Err(CodegenError::InvalidLValue),
        },
        Expression::Addition(l, r) => {
            match codegen_expression(l, out) {
                Ok(_) => {},
                Err(e) => {
                    return Err(e);
                },
            }
            push_str_chars(out, " + ");
            match codegen_expression(r, out) {
                Ok(_) => {},
                Err(e) => {
                    return Err(e);
                },
            }
            proof {
                if spec_render_expr(expr@) is Ok {
                    let ls = spec_render_expr(*(expr@->Addition_0))->Ok_0;
                    let rs = spec_render_expr(*(expr@->Addition_1))->Ok_0;
                    assert(old(out)@ + ls + " + "@ + rs =~= old(out)@ + (ls + " + "@ + rs));
                }
            }
            Ok(())
        },
    }
}

fn codegen_declaration(decl: &Declarations, out: &mut Vec<char>) -> (r: Result<(), CodegenError>)
    ensures
        match spec_render_binding(decl@) {
            Ok(s) => r is Ok && final(out)@ == old(out)@ + s,
            Err(er) => r matches Err(e) && e@ == er && final(out)@ == old(out)@,
        },
{
    match to_native_type(decl.data_type.as_str()) {
        None => Err(CodegenError::UnsupportedType(decl.data_type.clone())),
        Some(ty) => {
            push_str_chars(out, ty);
            push_str_chars(out, " ");
            push_str_chars(out, decl.ident.as_str());
            proof {
                let tys = spec_native_type(decl.data_type@)->Some_0;
                assert(old(out)@ + tys + " "@ + decl.ident@ =~= old(out)@ + (tys + " "@
                    + decl.ident@));
            }
            Ok(())
        },
    }
}

/// Renders a declaration statement line; both declaration kinds render
/// identically.
fn codegen_decl_line(decl: &DeclarationStmts, out: &mut Vec<char>) -> (r: Result<
    (),
    CodegenError,
>)
    ensures
        match spec_render_decl_line(decl@) {
            Ok(s) => r is Ok && final(out)@ == old(out)@ + s,
            Err(er) => r matches Err(e) && e@ == er,
        },
{
    push_str_chars(out, "\t");
    match codegen_declaration(&decl.lhs, out) {
        Ok(_) => {},
        Err(e) => {
            return Err(e);
        },
    }
    push_str_chars(out, " = ");
    match codegen_expression(&decl.rhs, out) {
        Ok(_) => {},
        Err(e) => {
            return Err(e);
        },
    }
    push_str_chars(out, ";\n");
    proof {
        if spec_render_decl_line(decl@) is Ok {
            let bs = spec_render_binding(decl@.lhs)->Ok_0;
            let es = spec_render_expr(decl@.rhs)->Ok_0;
            assert(old(out)@ + "\t"@ + bs + " = "@ + es + ";\n"@ =~= old(out)@ + ("\t"@ + bs
                + " = "@ + es + ";\n"@));
        }
    }
    Ok(())
}

fn codegen_mut_declaration(decl: &DeclarationStmts, out: &mut Vec<char>) -> (r: Result<
    (),
    CodegenError,
>)
    ensures
        match spec_render_decl_line(decl@) {
            Ok(s) => r is Ok && final(out)@ == old(out)@ + s,
            Err(er) => r matches Err(e) && e@ == er,
        },
{
    codegen_decl_line(decl, out)
}

fn codegen_const_declaration(decl: &DeclarationStmts, out: &mut Vec<char>) -> (r: Result<
    (),
    CodegenError,
>)
    ensures
        match spec_render_decl_line(decl@) {
            Ok(s) => r is Ok && final(out)@ == old(out)@ + s,
            Err(er) => r matches Err(e) && e@ == er,
        },
{
    codegen_decl_line(decl, out)
}

fn codegen_return_statement(stmt: &ReturnStmts, out: &mut Vec<char>) -> (r: Result<
    (),
    CodegenError,
>)
    ensures
        match spec_render_return(stmt@) {
            Ok(s) => r is Ok && final(out)@ == old(out)@ + s,
            Err(er) => r matches Err(e) && e@ == er,
        },
{
    push_str_chars(out, "\treturn ");
    match codegen_expression(&stmt.ret, out) {
        Ok(_) => {},
        Err(e) => {
            return Err(e);
        },
    }
    push_str_chars(out, ";\n");
    proof {
        if spec_render_return(stmt@) is Ok {
            let es = spec_render_expr(stmt@)->Ok_0;
            assert(old(out)@ + "\treturn "@ + es + ";\n"@ =~= old(out)@ + ("\treturn "@ + es
                + ";\n"@));
        }
    }
    Ok(())
}

fn codegen_assignment(stmt: &AssignmentStmts, out: &mut Vec<char>) -> (r: Result<
    (),
    CodegenError,
>)
    ensures
        match spec_render_assignment(stmt@) {
            Ok(s) => r is Ok && final(out)@ == old(out)@ + s,
            Err(er) => r matches Err(e) && e@ == er,
        },
{
    let name = match &stmt.lhs.token {
        Token::Ident(name) => name,
        _ => {
            return Err(CodegenError::InvalidLValue);
        },
    };
    push_str_chars(out, "\t");
    push_str_chars(out, name.as_str());
    push_str_chars(out, " = ");
    match codegen_expression(&stmt.rhs, out) {
        Ok(_) => {},
        Err(e) => {
            return Err(e);
        },
    }
    push_str_chars(out, ";\n");
    proof {
        if spec_render_assignment(stmt@) is Ok {
            let es = spec_render_expr(stmt@.rhs)->Ok_0;
            assert(old(out)@ + "\t"@ + name@ + " = "@ + es + ";\n"@ =~= old(out)@ + ("\t"@
                + name@ + " = "@ + es + ";\n"@));
        }
    }
    Ok(())
}

fn codegen_statement(stmt: &Statement, out: &mut Vec<char>) -> (r: Result<(), CodegenError>)
    ensures
        match spec_render_stmt(stmt@) {
            Ok(s) => r is Ok && final(out)@ == old(out)@ + s,
            Err(er) => r matches Err(e) && e@ == er,
        },
{
    match stmt {
        Statement::Return(rs) => codegen_return_statement(rs, out),
        Statement::Assignment(a) => codegen_assignment(a, out),
        Statement::MutDeclaration(d) => codegen_mut_declaration(d, out),
        Statement::ConstDeclaration(d) => codegen_const_declaration(d, out),
    }
}

#[verifier::loop_isolation(false)]
fn codegen_scope(scope: &Scope, out: &mut Vec<char>) -> (r: Result<(), CodegenError>)
    ensures
        match spec_render_scope(scope@) {
            Ok(s) => r is Ok && final(out)@ == old(out)@ + s,
            Err(er) => r matches Err(e) && e@ == er,
        },
{
    let ghost sv = scope@.stmts;
    push_str_chars(out, "{\n");
    let ghost prefix = out@;
    let ghost mut cur = Seq::<char>::empty();
    proof {
        assert(cur + Seq::<char>::empty() =~= cur);
    }
    let n = scope.stmts.len();
    let mut i: usize = 0;
    while i < n
        invariant
            i <= n,
            n == sv.len(),
            out@ == prefix + cur,
            spec_render_stmts_from(sv, 0, Seq::empty()) == spec_render_stmts_from(
                sv,
                i as int,
                cur,
            ),
        decreases n - i,
    {
        assert(sv[i as int] == scope.stmts@[i as int]@);
        match codegen_statement(&scope.stmts[i], out) {
            Ok(_) => {},
            Err(e) => {
                return Err(e);
            },
        }
        proof {
            let s = spec_render_stmt(sv[i as int])->Ok_0;
            assert(prefix + cur + s =~= prefix + (cur + s));
            cur = cur + s;
        }
        i += 1;
    }
    match &scope.ret {
        Some(rs) => {
            match codegen_return_statement(rs, out) {
                Ok(_) => {},
                Err(e) => {
                    return Err(e);
                },
            }
            push_str_chars(out, "}\n");
            proof {
                let body = spec_render_stmts_from(sv, 0, Seq::empty())->Ok_0;
                let rline = spec_render_return(scope@.ret->Some_0)->Ok_0;
                assert(old(out)@ + "{\n"@ + body + rline + "}\n"@ =~= old(out)@ + ("{\n"@ + body
                    + rline + "}\n"@));
            }
            Ok(())
        },
        None => {
            push_str_chars(out, "}\n");
            proof {
                let body = spec_render_stmts_from(sv, 0, Seq::empty())->Ok_0;
                assert(old(out)@ + "{\n"@ + body + "}\n"@ =~= old(out)@ + ("{\n"@ + body
                    + "}\n"@));
            }
            Ok(())
        },
    }
}

fn codegen_function_signature(sig: &FnSignature, out: &mut Vec<char>) -> (r: Result<
    (),
    CodegenError,
>)
    ensures
        match spec_render_signature(sig@) {
            Ok(s) => r is Ok && final(out)@ == old(out)@ + s,
            Err(er) => r matches Err(e) && e@ == er,
        },
{
    match to_native_type(sig.return_type.as_str()) {
        None => Err(CodegenError::UnsupportedType(sig.return_type.clone())),
        Some(ty) => {
            push_str_chars(out, ty);
            push_str_chars(out, " ");
            push_str_chars(out, sig.name.as_str());
            push_str_chars(out, "()");
            proof {
                let tys = spec_native_type(sig.return_type@)->Some_0;
                assert(old(out)@ + tys + " "@ + sig.name@ + "()"@ =~= old(out)@ + (tys
                    + " "@ + sig.name@ + "()"@));
            }
            Ok(())
        },
    }
}

fn codegen_function(func: &Functions, out: &mut Vec<char>) -> (r: Result<(), CodegenError>)
    ensures
        match spec_render_function(func@) {
            Ok(s) => r is Ok && final(out)@ == old(out)@ + s,
            Err(er) => r matches Err(e) && e@ == er,
        },
{
    match codegen_function_signature(&func.fn_signature, out) {
        Ok(_) => {},
        Err(e) => {
            return Err(e);
        },
    }
    push_str_chars(out, "\n");
    match codegen_scope(&func.scope, out) {
        Ok(_) => {},
        Err(e) => {
            return Err(e);
        },
    }
    proof {
        if spec_render_function(func@) is Ok {
            let ss = spec_render_signature(func@.fn_signature)->Ok_0;
            let sc = spec_render_scope(func@.scope)->Ok_0;
            assert(old(out)@ + ss + "\n"@ + sc =~= old(out)@ + (ss + "\n"@ + sc));
        }
    }
    Ok(())
}

/// Generates the complete C source text for a program, or fails on the
/// first unmappable type or invalid value position.
#[verifier::loop_isolation(false)]
pub fn c_codegen(ast: Ast) -> (r: Result<String, CodegenError>)
    ensures
        match spec_c_codegen(ast@) {
            Ok(s) => r matches Ok(text) && text@ == s,
            Err(er) => r matches Err(e) && e@ == er,
        },
{
    let ghost fv = ast@.functions;
    let mut out: Vec<char> = Vec::new();
    let ghost mut cur = Seq::<char>::empty();
    proof {
        assert(out@ =~= cur);
    }
    let n = ast.functions.len();
    let mut i: usize = 0;
    while i < n
        invariant
            i <= n,
            n == fv.len(),
            out@ == cur,
            spec_render_functions_from(fv, 0, Seq::empty()) == spec_render_functions_from(
                fv,
                i as int,
                cur,
            ),
        decreases n - i,
    {
        assert(fv[i as int] == ast.functions@[i as int]@);
        match codegen_function(&ast.functions[i], &mut out) {
            Ok(_) => {},
            Err(e) => {
                return Err(e);
            },
        }
        proof {
            let s = spec_render_function(fv[i as int])->Ok_0;
            cur = cur + s;
        }
        i += 1;
    }
    let mut prefixed: Vec<char> = Vec::new();
    push_str_chars(&mut prefixed, "#include <stdbool.h>\n");
    let mut body = out;
    prefixed.append(&mut body);
    Ok(chars_to_string(&prefixed))
}

} // verus!
