//! A small ahead-of-time compiler front end and back end: lexical analysis,
//! parsing into an abstract syntax tree, and C code generation, for a tiny
//! statically typed language with integer/boolean/char scalars, parameterless
//! functions, local bindings, integer addition, and single-expression returns.
//!
//! The three stages run in strict pipeline order; each is a pure function
//! whose behaviour is fully specified by a spec-level mirror, so identical
//! input always yields byte-identical output.

use vstd::prelude::*;

pub mod codegen;
pub mod lexer;
pub mod parser;
pub mod text;

use crate::codegen::{spec_c_codegen, CodegenError, CodegenErrorModel};
use crate::lexer::{lines_view, spec_lex_source, LexErrorModel, LexerError};
use crate::parser::{spec_parse_toplevel, ParseError};

verus! {

/// A failure of any stage of the pipeline.
#[derive(Debug, PartialEq, Eq)]
pub enum CompileError {
    Lex(LexerError),
    Parse(ParseError),
    Codegen(CodegenError),
}

/// Mathematical model of a pipeline failure.
pub ghost enum CompileErrorModel {
    Lex(LexErrorModel),
    Parse(ParseError),
    Codegen(CodegenErrorModel),
}

impl View for CompileError {
    type V = CompileErrorModel;

    open spec fn view(&self) -> CompileErrorModel {
        match self {
            CompileError::Lex(e) => CompileErrorModel::Lex(e@),
            CompileError::Parse(e) => CompileErrorModel::Parse(*e),
            CompileError::Codegen(e) => CompileErrorModel::Codegen(e@),
        }
    }
}

/// What compiling a whole source, given as its lines, yields: the stages
/// run in order and the first failure aborts the compile.
pub open spec fn spec_compile(lines: Seq<Seq<char>>) -> Result<Seq<char>, CompileErrorModel> {
    match spec_lex_source(lines) {
        Err(e) => Err(CompileErrorModel::Lex(e)),
        Ok(toks) => match spec_parse_toplevel(toks) {
            Err(e) => Err(CompileErrorModel::Parse(e)),
            Ok(ast) => match spec_c_codegen(ast) {
                Err(e) => Err(CompileErrorModel::Codegen(e)),
                Ok(text) => Ok(text),
            },
        },
    }
}

/// Compiles source text, given as its sequence of lines, to C source text:
/// lexer, then parser, then code generator, aborting on the first error.
pub fn compile_source(lines: &Vec<String>) -> (r: Result<String, CompileError>)
    ensures
        match r {
            Ok(text) => spec_compile(lines_view(lines@)) == Ok::<Seq<char>, CompileErrorModel>(
                text@,
            ),
            Err(e) => spec_compile(lines_view(lines@)) == Err::<Seq<char>, CompileErrorModel>(
                e@,
            ),
        },
{
    let tokens = match crate::lexer::lexical_analysis(lines) {
        Ok(t) => t,
        Err(e) => {
            return Err(CompileError::Lex(e));
        },
    };
    let ast = match crate::parser::parse_toplevel(tokens) {
        Ok(a) => a,
        Err(e) => {
            return Err(CompileError::Parse(e));
        },
    };
    match crate::codegen::c_codegen(ast) {
        Ok(text) => Ok(text),
        Err(e) => Err(CompileError::Codegen(e)),
    }
}

/// Round-trip determinism: compiling the same source text twice yields
/// byte-identical results — the whole pipeline is a function of its input
/// alone.
pub proof fn lemma_compile_deterministic(
    lines: Seq<Seq<char>>,
    r1: Result<Seq<char>, CompileErrorModel>,
    r2: Result<Seq<char>, CompileErrorModel>,
)
    requires
        r1 == spec_compile(lines),
        r2 == spec_compile(lines),
    ensures
        r1 == r2,
{
}

} // verus!
