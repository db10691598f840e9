//! Parsing: positioned tokens to an abstract syntax tree.
//!
//! Stage A groups the token stream into one balanced-brace group per
//! function, tracking brace depth. Stage B splits a group at its first `{`
//! into signature and body. The signature grammar is exactly
//! `fn` IDENT `(` `)` `->` IDENT. The body is split into statements on each
//! top-level `;`; the last statement, if a `return`, becomes the scope's
//! terminal return, and the declared return type is cross-checked against
//! its presence. Statements dispatch on their leading token; declarations
//! split at the first top-level `=`; expressions are either a single value
//! token or an addition split at the first top-level `+`.
//!
//! Every executable parsing function is proved to compute exactly what the
//! corresponding `spec_parse_*` function says.

use vstd::prelude::*;
use vstd::slice::{slice_index_get, slice_subrange};
use crate::lexer::{Token, Tokens, TokenModel, TokensModel, toks_view, lemma_toks_view_push};

verus! {

/// A parsing failure: the kind of grammar rule that was violated.
#[derive(Debug, Clone, Copy, PartialEq, Eq)]
pub enum ParseError {
    UnbalancedBraces,
    UnexpectedToken,
    InvalidSignature,
    MissingReturn,
    EmptyScope,
}

/// The abstract syntax tree: an ordered sequence of function definitions.
#[derive(Debug, PartialEq, Eq)]
pub struct Ast {
    pub functions: Vec<Functions>,
}

/// One function definition: a signature plus a body scope.
#[derive(Debug, PartialEq, Eq)]
pub struct Functions {
    pub fn_signature: FnSignature,
    pub scope: Scope,
}

/// A function signature: its name and declared return type.
#[derive(Debug, PartialEq, Eq)]
pub struct FnSignature {
    pub name: String,
    pub return_type: String,
}

/// A function body: its statements plus an optional terminal return.
#[derive(Debug, PartialEq, Eq)]
pub struct Scope {
    pub stmts: Vec<Statement>,
    pub ret: Option<ReturnStmts>,
}

/// A terminal return statement's expression.
#[derive(Debug, PartialEq, Eq)]
pub struct ReturnStmts {
    pub ret: Expression,
}

/// One statement of a scope.
#[derive(Debug, PartialEq, Eq)]
pub enum Statement {
    MutDeclaration(DeclarationStmts),
    ConstDeclaration(DeclarationStmts),
    Return(ReturnStmts),
    Assignment(AssignmentStmts),
}

/// An assignment: the target identifier token and the assigned expression.
#[derive(Debug, PartialEq, Eq)]
pub struct AssignmentStmts {
    pub lhs: Tokens,
    pub rhs: Expression,
}

/// A declaration statement: the binding and its initialising expression.
#[derive(Debug, PartialEq, Eq)]
pub struct DeclarationStmts {
    pub lhs: Declarations,
    pub rhs: Expression,
}

/// A binding: identifier name and declared primitive type name.
#[derive(Debug, PartialEq, Eq)]
pub struct Declarations {
    pub ident: String,
    pub data_type: String,
}

/// An expression: a single value token, or a left/right addition.
#[derive(Debug, PartialEq, Eq)]
pub enum Expression {
    Addition(Box<Expression>, Box<Expression>),
    Value(Tokens),
}

// ---------------------------------------------------------------------------
// Mathematical models
// ---------------------------------------------------------------------------

pub ghost enum ExprModel {
    Addition(Box<ExprModel>, Box<ExprModel>),
    Value(TokensModel),
}

pub ghost struct AssignModel {
    pub lhs: TokensModel,
    pub rhs: ExprModel,
}

pub ghost struct DeclModel {
    pub ident: Seq<char>,
    pub data_type: Seq<char>,
}

pub ghost struct DeclStmtModel {
    pub lhs: DeclModel,
    pub rhs: ExprModel,
}

pub ghost enum StmtModel {
    MutDeclaration(DeclStmtModel),
    ConstDeclaration(DeclStmtModel),
    Return(ExprModel),
    Assignment(AssignModel),
}

pub ghost struct SigModel {
    pub name: Seq<char>,
    pub return_type: Seq<char>,
}

pub ghost struct ScopeModel {
    pub stmts: Seq<StmtModel>,
    pub ret: Option<ExprModel>,
}

pub ghost struct FunctionModel {
    pub fn_signature: SigModel,
    pub scope: ScopeModel,
}

pub ghost struct AstModel {
    pub functions: Seq<FunctionModel>,
}

pub open spec fn expr_view(e: Expression) -> ExprModel
    decreases e,
{
    match e {
        Expression::Value(t) => ExprModel::Value(t@),
        Expression::Addition(l, r) => ExprModel::Addition(
            Box::new(expr_view(*l)),
            Box::new(expr_view(*r)),
        ),
    }
}

impl View for Expression {
    type V = ExprModel;

    open spec fn view(&self) -> ExprModel {
        expr_view(*self)
    }
}

impl View for ReturnStmts {
    type V = ExprModel;

    open spec fn view(&self) -> ExprModel {
        expr_view(self.ret)
    }
}

impl View for Declarations {
    type V = DeclModel;

    open spec fn view(&self) -> DeclModel {
        DeclModel { ident: self.ident@, data_type: self.data_type@ }
    }
}

impl View for DeclarationStmts {
    type V = DeclStmtModel;

    open spec fn view(&self) -> DeclStmtModel {
        DeclStmtModel { lhs: self.lhs@, rhs: self.rhs@ }
    }
}

impl View for AssignmentStmts {
    type V = AssignModel;

    open spec fn view(&self) -> AssignModel {
        AssignModel { lhs: self.lhs@, rhs: self.rhs@ }
    }
}

impl View for Statement {
    type V = StmtModel;

    open spec fn view(&self) -> StmtModel {
        match self {
            Statement::MutDeclaration(d) => StmtModel::MutDeclaration(d@),
            Statement::ConstDeclaration(d) => StmtModel::ConstDeclaration(d@),
            Statement::Return(r) => StmtModel::Return(r@),
            Statement::Assignment(a) => StmtModel::Assignment(a@),
        }
    }
}

impl View for FnSignature {
    type V = SigModel;

    open spec fn view(&self) -> SigModel {
        SigModel { name: self.name@, return_type: self.return_type@ }
    }
}

pub open spec fn stmts_view(s: Seq<Statement>) -> Seq<StmtModel> {
    s.map_values(|st: Statement| st@)
}

impl View for Scope {
    type V = ScopeModel;

    open spec fn view(&self) -> ScopeModel {
        ScopeModel {
            stmts: stmts_view(self.stmts@),
            ret: match self.ret {
                Some(r) => Some(r@),
                None => None,
            },
        }
    }
}

impl View for Functions {
    type V = FunctionModel;

    open spec fn view(&self) -> FunctionModel {
        FunctionModel { fn_signature: self.fn_signature@, scope: self.scope@ }
    }
}

pub open spec fn funcs_view(f: Seq<Functions>) -> Seq<FunctionModel> {
    f.map_values(|x: Functions| x@)
}

impl View for Ast {
    type V = AstModel;

    open spec fn view(&self) -> AstModel {
        AstModel { functions: funcs_view(self.functions@) }
    }
}

impl Ast {
    /// The empty program, holding no functions.
    pub fn empty() -> (r: Self)
        ensures
            r@.functions.len() == 0,
    {
        let r = Ast { functions: Vec::new() };
        proof {
            assert(funcs_view(r.functions@) =~= Seq::<FunctionModel>::empty());
        }
        r
    }
}

/// Deep view of a parsing result.
pub open spec fn parse_result_view<T: View>(r: Result<T, ParseError>) -> Result<
    T::V,
    ParseError,
> {
    match r {
        Ok(v) => Ok(v@),
        Err(e) => Err(e),
    }
}

// ---------------------------------------------------------------------------
// Shared split-on-separator helper
// ---------------------------------------------------------------------------

/// Index of the first occurrence of `target` at bracket/paren nesting depth
/// zero, scanning from `i` with current depth `depth`.
pub open spec fn spec_find_top_level(
    toks: Seq<TokensModel>,
    target: TokenModel,
    i: int,
    depth: int,
) -> Option<int>
    decreases toks.len() - i,
{
    if i < 0 || i >= toks.len() {
        None
    } else if toks[i].token == target && depth == 0 {
        Some(i)
    } else {
        let d2 = if toks[i].token is LParen || toks[i].token is LBrace {
            depth + 1
        } else if toks[i].token is RParen || toks[i].token is RBrace {
            depth - 1
        } else {
            depth
        };
        spec_find_top_level(toks, target, i + 1, d2)
    }
}

/// Finds the first top-level `+` (when `plus` is set) or `=` (otherwise) in
/// the token run, respecting bracket/paren nesting.
#[verifier::loop_isolation(false)]
fn find_top_level(toks: &[Tokens], plus: bool) -> (r: Option<usize>)
    ensures
        ({
            let target = if plus { TokenModel::Plus } else { TokenModel::Eq };
            match r {
                Some(k) => k < toks@.len() && spec_find_top_level(toks_view(toks@), target, 0, 0)
                    == Some(k as int),
                None => spec_find_top_level(toks_view(toks@), target, 0, 0) is None,
            }
        }),
{
    let ghost tv = toks_view(toks@);
    let ghost target = if plus { TokenModel::Plus } else { TokenModel::Eq };
    let n = toks.len();
    let mut i: usize = 0;
    let mut depth: i128 = 0;
    while i < n
        invariant
            i <= n,
            n == tv.len(),
            tv == toks_view(toks@),
            -(i as int) <= depth <= i as int,
            spec_find_top_level(tv, target, 0, 0) == spec_find_top_level(
                tv,
                target,
                i as int,
                depth as int,
            ),
        decreases n - i,
    {
        let t = slice_index_get(toks, i);
        assert(tv[i as int] == toks@[i as int]@);
        let mut hit: bool = false;
        match &t.token {
            Token::Plus => {
                hit = plus;
                assert(tv[i as int].token is Plus);
            },
            Token::Eq => {
                hit = !plus;
                assert(tv[i as int].token is Eq);
            },
            _ => {
                assert(!(tv[i as int].token is Plus) && !(tv[i as int].token is Eq));
            },
        }
        assert(hit == (tv[i as int].token == target));
        if hit && depth == 0 {
            return Some(i);
        }
        match &t.token {
            Token::LParen | Token::LBrace => {
                depth = depth + 1;
            },
            Token::RParen | Token::RBrace => {
                depth = depth - 1;
            },
            _ => {},
        }
        i += 1;
    }
    None
}

// ---------------------------------------------------------------------------
// Expressions (Stage F)
// ---------------------------------------------------------------------------

/// A single token is a value; a longer run is split at its first top-level
/// `+` into an addition; a multi-token run without one is rejected.
pub open spec fn spec_parse_expression(toks: Seq<TokensModel>) -> Result<ExprModel, ParseError>
    decreases toks.len(),
{
    if toks.len() == 0 {
        Err(ParseError::UnexpectedToken)
    } else if toks.len() == 1 {
        Ok(ExprModel::Value(toks[0]))
    } else {
        match spec_find_top_level(toks, TokenModel::Plus, 0, 0) {
            None => Err(ParseError::UnexpectedToken),
            Some(k) => {
                if 0 <= k < toks.len() {
                    match spec_parse_expression(toks.take(k)) {
                        Err(e) => Err(e),
                        Ok(l) => match spec_parse_expression(toks.skip(k + 1)) {
                            Err(e) => Err(e),
                            Ok(r) => Ok(ExprModel::Addition(Box::new(l), Box::new(r))),
                        },
                    }
                } else {
                    Err(ParseError::UnexpectedToken)
                }
            },
        }
    }
}

/// Parses one expression from a token run.
pub fn parse_expression(toks: &[Tokens]) -> (r: Result<Expression, ParseError>)
    ensures
        parse_result_view(r) == spec_parse_expression(toks_view(toks@)),
    decreases toks@.len(),
{
    let ghost tv = toks_view(toks@);
    let n = toks.len();
    if n == 0 {
        return Err(ParseError::UnexpectedToken);
    }
    if n == 1 {
        let t = slice_index_get(toks, 0).clone();
        assert(t@ == tv[0]);
        return Ok(Expression::Value(t));
    }
    match find_top_level(toks, true) {
        None => Err(ParseError::UnexpectedToken),
        Some(k) => {
            let left = slice_subrange(toks, 0, k);
            let right = slice_subrange(toks, k + 1, n);
            proof {
                assert(toks_view(left@) =~= tv.take(k as int));
                assert(toks_view(right@) =~= tv.skip(k + 1));
            }
            let l = match parse_expression(left) {
                Ok(l) => l,
                Err(e) => {
                    return Err(e);
                },
            };
            let r = match parse_expression(right) {
                Ok(r) => r,
                Err(e) => {
                    return Err(e);
                },
            };
            Ok(Expression::Addition(Box::new(l), Box::new(r)))
        },
    }
}

// ---------------------------------------------------------------------------
// Statements (Stages D and E)
// ---------------------------------------------------------------------------

/// A return statement: the `return` keyword followed by an expression.
pub open spec fn spec_parse_return(toks: Seq<TokensModel>) -> Result<ExprModel, ParseError> {
    if toks.len() > 0 && toks[0].token is Return {
        spec_parse_expression(toks.skip(1))
    } else {
        Err(ParseError::UnexpectedToken)
    }
}

/// Parses a return statement.
pub fn parse_return(toks: &[Tokens]) -> (r: Result<ReturnStmts, ParseError>)
    ensures
        parse_result_view(r) == spec_parse_return(toks_view(toks@)),
{
    let ghost tv = toks_view(toks@);
    if toks.len() == 0 {
        return Err(ParseError::UnexpectedToken);
    }
    let is_ret = match &slice_index_get(toks, 0).token {
        Token::Return => true,
        _ => false,
    };
    assert(is_ret == (tv[0].token is Return));
    if !is_ret {
        return Err(ParseError::UnexpectedToken);
    }
    let rest = slice_subrange(toks, 1, toks.len());
    proof {
        assert(toks_view(rest@) =~= tv.skip(1));
    }
    match parse_expression(rest) {
        Ok(e) => Ok(ReturnStmts { ret: e }),
        Err(e) => Err(e),
    }
}

/// The binding side of a declaration: exactly `(mut|const)` IDENT `:` IDENT.
pub open spec fn spec_parse_declaration(toks: Seq<TokensModel>) -> Result<DeclModel, ParseError> {
    if toks.len() == 4 && (toks[0].token is Mut || toks[0].token is Const) && toks[1].token
        is Ident && toks[2].token is Colon && toks[3].token is Ident {
        Ok(DeclModel { ident: toks[1].token->Ident_0, data_type: toks[3].token->Ident_0 })
    } else {
        Err(ParseError::UnexpectedToken)
    }
}

/// Parses the binding side of a declaration.
pub fn parse_declaration(toks: &[Tokens]) -> (r: Result<Declarations, ParseError>)
    ensures
        parse_result_view(r) == spec_parse_declaration(toks_view(toks@)),
{
    let ghost tv = toks_view(toks@);
    if toks.len() != 4 {
        return Err(ParseError::UnexpectedToken);
    }
    let kw_ok = match &slice_index_get(toks, 0).token {
        Token::Mut | Token::Const => true,
        _ => false,
    };
    assert(kw_ok == (tv[0].token is Mut || tv[0].token is Const));
    if !kw_ok {
        return Err(ParseError::UnexpectedToken);
    }
    let ident = match &slice_index_get(toks, 1).token {
        Token::Ident(name) => name.clone(),
        _ => {
            assert(!(tv[1].token is Ident));
            return Err(ParseError::UnexpectedToken);
        },
    };
    let colon_ok = match &slice_index_get(toks, 2).token {
        Token::Colon => true,
        _ => false,
    };
    assert(colon_ok == (tv[2].token is Colon));
    if !colon_ok {
        return Err(ParseError::UnexpectedToken);
    }
    let data_type = match &slice_index_get(toks, 3).token {
        Token::Ident(name) => name.clone(),
        _ => {
            assert(!(tv[3].token is Ident));
            return Err(ParseError::UnexpectedToken);
        },
    };
    Ok(Declarations { ident, data_type })
}

/// A declaration statement, split at its first top-level `=` into a binding
/// side and an expression side.
pub open spec fn spec_parse_declaration_stmt(toks: Seq<TokensModel>) -> Result<
    DeclStmtModel,
    ParseError,
> {
    match spec_find_top_level(toks, TokenModel::Eq, 0, 0) {
        None => Err(ParseError::UnexpectedToken),
        Some(k) => {
            if 0 <= k < toks.len() {
                match spec_parse_declaration(toks.take(k)) {
                    Err(e) => Err(e),
                    Ok(lhs) => match spec_parse_expression(toks.skip(k + 1)) {
                        Err(e) => Err(e),
                        Ok(rhs) => Ok(DeclStmtModel { lhs, rhs }),
                    },
                }
            } else {
                Err(ParseError::UnexpectedToken)
            }
        },
    }
}

fn parse_declaration_stmt(toks: &[Tokens]) -> (r: Result<DeclarationStmts, ParseError>)
    ensures
        parse_result_view(r) == spec_parse_declaration_stmt(toks_view(toks@)),
{
    let ghost tv = toks_view(toks@);
    let n = toks.len();
    match find_top_level(toks, false) {
        None => Err(ParseError::UnexpectedToken),
        Some(k) => {
            let left = slice_subrange(toks, 0, k);
            let right = slice_subrange(toks, k + 1, n);
            proof {
                assert(toks_view(left@) =~= tv.take(k as int));
                assert(toks_view(right@) =~= tv.skip(k + 1));
            }
            let lhs = match parse_declaration(left) {
                Ok(d) => d,
                Err(e) => {
                    return Err(e);
                },
            };
            let rhs = match parse_expression(right) {
                Ok(e) => e,
                Err(e) => {
                    return Err(e);
                },
            };
            Ok(DeclarationStmts { lhs, rhs })
        },
    }
}

/// Parses a mutable declaration statement.
pub fn parse_mutable_declaration(toks: &[Tokens]) -> (r: Result<DeclarationStmts, ParseError>)
    ensures
        parse_result_view(r) == spec_parse_declaration_stmt(toks_view(toks@)),
{
    parse_declaration_stmt(toks)
}

/// Parses a constant declaration statement.
pub fn parse_const_declaration(toks: &[Tokens]) -> (r: Result<DeclarationStmts, ParseError>)
    ensures
        parse_result_view(r) == spec_parse_declaration_stmt(toks_view(toks@)),
{
    parse_declaration_stmt(toks)
}

/// An assignment statement: IDENT `=` expression.
pub open spec fn spec_parse_assignment(toks: Seq<TokensModel>) -> Result<AssignModel, ParseError> {
    if toks.len() >= 2 && toks[0].token is Ident && toks[1].token is Eq {
        match spec_parse_expression(toks.skip(2)) {
            Err(e) => Err(e),
            Ok(rhs) => Ok(AssignModel { lhs: toks[0], rhs }),
        }
    } else {
        Err(ParseError::UnexpectedToken)
    }
}

/// Parses an assignment statement.
pub fn parse_assignment(toks: &[Tokens]) -> (r: Result<AssignmentStmts, ParseError>)
    ensures
        parse_result_view(r) == spec_parse_assignment(toks_view(toks@)),
{
    let ghost tv = toks_view(toks@);
    if toks.len() < 2 {
        return Err(ParseError::UnexpectedToken);
    }
    let first = slice_index_get(toks, 0);
    let lhs_ok = match &first.token {
        Token::Ident(_) => true,
        _ => false,
    };
    assert(lhs_ok == (tv[0].token is Ident));
    let eq_ok = match &slice_index_get(toks, 1).token {
        Token::Eq => true,
        _ => false,
    };
    assert(eq_ok == (tv[1].token is Eq));
    if !lhs_ok || !eq_ok {
        return Err(ParseError::UnexpectedToken);
    }
    let rest = slice_subrange(toks, 2, toks.len());
    proof {
        assert(toks_view(rest@) =~= tv.skip(2));
    }
    match parse_expression(rest) {
        Ok(rhs) => Ok(AssignmentStmts { lhs: first.clone(), rhs }),
        Err(e) => Err(e),
    }
}

/// One statement, dispatched on its leading token: `return`, `mut`,
/// `const`, or an assignment.
pub open spec fn spec_parse_statement(toks: Seq<TokensModel>) -> Result<StmtModel, ParseError> {
    if toks.len() == 0 {
        Err(ParseError::UnexpectedToken)
    } else if toks[0].token is Return {
        match spec_parse_return(toks) {
            Ok(e) => Ok(StmtModel::Return(e)),
            Err(e) => Err(e),
        }
    } else if toks[0].token is Mut {
        match spec_parse_declaration_stmt(toks) {
            Ok(d) => Ok(StmtModel::MutDeclaration(d)),
            Err(e) => Err(e),
        }
    } else if toks[0].token is Const {
        match spec_parse_declaration_stmt(toks) {
            Ok(d) => Ok(StmtModel::ConstDeclaration(d)),
            Err(e) => Err(e),
        }
    } else {
        match spec_parse_assignment(toks) {
            Ok(a) => Ok(StmtModel::Assignment(a)),
            Err(e) => Err(e),
        }
    }
}

/// Parses one statement.
pub fn parse_statement(toks: &[Tokens]) -> (r: Result<Statement, ParseError>)
    ensures
        parse_result_view(r) == spec_parse_statement(toks_view(toks@)),
{
    let ghost tv = toks_view(toks@);
    if toks.len() == 0 {
        return Err(ParseError::UnexpectedToken);
    }
    match &slice_index_get(toks, 0).token {
        Token::Return => {
            assert(tv[0].token is Return);
            match parse_return(toks) {
                Ok(r) => Ok(Statement::Return(r)),
                Err(e) => Err(e),
            }
        },
        Token::Mut => {
            assert(tv[0].token is Mut);
            match parse_mutable_declaration(toks) {
                Ok(d) => Ok(Statement::MutDeclaration(d)),
                Err(e) => Err(e),
            }
        },
        Token::Const => {
            assert(tv[0].token is Const);
            match parse_const_declaration(toks) {
                Ok(d) => Ok(Statement::ConstDeclaration(d)),
                Err(e) => Err(e),
            }
        },
        _ => {
            assert(!(tv[0].token is Return) && !(tv[0].token is Mut) && !(tv[0].token is Const));
            match parse_assignment(toks) {
                Ok(a) => Ok(Statement::Assignment(a)),
                Err(e) => Err(e),
            }
        },
    }
}

// ---------------------------------------------------------------------------
// Scopes (Stage C)
// ---------------------------------------------------------------------------

/// Extracting the terminal return: an empty statement list is rejected; a
/// non-final `return` is rejected; a final `return` is popped into the
/// scope's terminal return slot.
pub open spec fn spec_finalize_scope(stmts: Seq<StmtModel>) -> Result<ScopeModel, ParseError> {
    if stmts.len() == 0 {
        Err(ParseError::EmptyScope)
    } else if exists|j: int| 0 <= j < stmts.len() - 1 && #[trigger] stmts[j] is Return {
        Err(ParseError::UnexpectedToken)
    } else {
        let last = stmts.last();
        if last is Return {
            Ok(ScopeModel { stmts: stmts.drop_last(), ret: Some(last->Return_0) })
        } else {
            Ok(ScopeModel { stmts, ret: None })
        }
    }
}

/// The body scan of a scope, from position `i` at brace depth `depth >= 1`,
/// with `buf` the pending statement chunk and `stmts` the statements parsed
/// so far.
pub open spec fn spec_scope_from(
    toks: Seq<TokensModel>,
    i: int,
    depth: int,
    buf: Seq<TokensModel>,
    stmts: Seq<StmtModel>,
) -> Result<ScopeModel, ParseError>
    decreases toks.len() - i,
{
    if i < 0 || i >= toks.len() {
        Err(ParseError::UnbalancedBraces)
    } else {
        let t = toks[i];
        if t.token is LBrace {
            spec_scope_from(toks, i + 1, depth + 1, buf.push(t), stmts)
        } else if t.token is RBrace {
            if depth == 1 {
                if i != toks.len() - 1 {
                    Err(ParseError::UnexpectedToken)
                } else if buf.len() > 0 {
                    Err(ParseError::UnexpectedToken)
                } else {
                    spec_finalize_scope(stmts)
                }
            } else {
                spec_scope_from(toks, i + 1, depth - 1, buf.push(t), stmts)
            }
        } else if t.token is Semi && depth == 1 {
            if buf.len() == 0 {
                spec_scope_from(toks, i + 1, depth, buf, stmts)
            } else {
                match spec_parse_statement(buf) {
                    Ok(s) => spec_scope_from(toks, i + 1, depth, Seq::empty(), stmts.push(s)),
                    Err(e) => Err(e),
                }
            }
        } else {
            spec_scope_from(toks, i + 1, depth, buf.push(t), stmts)
        }
    }
}

/// A scope: an opening `{`, statements split on top-level `;`, a closing
/// `}` ending the run.
pub open spec fn spec_parse_scope(toks: Seq<TokensModel>) -> Result<ScopeModel, ParseError> {
    if toks.len() == 0 || !(toks[0].token is LBrace) {
        Err(ParseError::UnexpectedToken)
    } else {
        spec_scope_from(toks, 1, 1, Seq::empty(), Seq::empty())
    }
}

proof fn lemma_stmts_view_push(s: Seq<Statement>, st: Statement)
    ensures
        stmts_view(s.push(st)) == stmts_view(s).push(st@),
{
    assert(stmts_view(s.push(st)) =~= stmts_view(s).push(st@));
}

/// Parses a function body scope.
#[verifier::loop_isolation(false)]
pub fn parse_scope(toks: &[Tokens]) -> (r: Result<Scope, ParseError>)
    ensures
        parse_result_view(r) == spec_parse_scope(toks_view(toks@)),
{
    let ghost tv = toks_view(toks@);
    let n = toks.len();
    if n == 0 {
        return Err(ParseError::UnexpectedToken);
    }
    let open_ok = match &slice_index_get(toks, 0).token {
        Token::LBrace => true,
        _ => false,
    };
    assert(open_ok == (tv[0].token is LBrace));
    if !open_ok {
        return Err(ParseError::UnexpectedToken);
    }
    let mut buf: Vec<Tokens> = Vec::new();
    let mut stmts: Vec<Statement> = Vec::new();
    let mut depth: usize = 1;
    let mut i: usize = 1;
    proof {
        assert(toks_view(buf@) =~= Seq::<TokensModel>::empty());
        assert(stmts_view(stmts@) =~= Seq::<StmtModel>::empty());
    }
    while i < n
        invariant
            1 <= i <= n,
            1 <= depth <= i,
            spec_parse_scope(tv) == spec_scope_from(
                tv,
                i as int,
                depth as int,
                toks_view(buf@),
                stmts_view(stmts@),
            ),
        decreases n - i,
    {
        let t = slice_index_get(toks, i);
        assert(tv[i as int] == toks@[i as int]@);
        match &t.token {
            Token::LBrace => {
                let c = t.clone();
                proof {
                    lemma_toks_view_push(buf@, c);
                }
                buf.push(c);
                depth = depth + 1;
            },
            Token::RBrace => {
                if depth == 1 {
                    if i != n - 1 {
                        return Err(ParseError::UnexpectedToken);
                    }
                    if buf.len() > 0 {
                        return Err(ParseError::UnexpectedToken);
                    }
                    // finalize: pop the terminal return, rejecting a
                    // non-final return
                    if stmts.len() == 0 {
                        return Err(ParseError::EmptyScope);
                    }
                    let ghost sv = stmts_view(stmts@);
                    let mut j: usize = 0;
                    while j < stmts.len() - 1
                        invariant
                            0 <= j <= stmts@.len() - 1,
                            forall|m: int| 0 <= m < j ==> !(#[trigger] sv[m] is Return),
                        decreases stmts@.len() - 1 - j,
                    {
                        let is_ret = match &stmts[j] {
                            Statement::Return(_) => true,
                            _ => false,
                        };
                        assert(is_ret == (sv[j as int] is Return));
                        if is_ret {
                            return Err(ParseError::UnexpectedToken);
                        }
                        j += 1;
                    }
                    assert(!(exists|m: int|
                        0 <= m < sv.len() - 1 && #[trigger] sv[m] is Return));
                    let last = stmts.pop().unwrap();
                    assert(last@ == sv.last());
                    match last {
                        Statement::Return(rs) => {
                            proof {
                                assert(stmts_view(stmts@) =~= sv.drop_last());
                            }
                            return Ok(Scope { stmts, ret: Some(rs) });
                        },
                        other => {
                            proof {
                                lemma_stmts_view_push(stmts@, other);
                                assert(stmts_view(stmts@).push(other@) =~= sv);
                            }
                            stmts.push(other);
                            return Ok(Scope { stmts, ret: None });
                        },
                    }
                } else {
                    let c = t.clone();
                    proof {
                        lemma_toks_view_push(buf@, c);
                    }
                    buf.push(c);
                    depth = depth - 1;
                }
            },
            Token::Semi if depth == 1 => {
                if buf.len() > 0 {
                    match parse_statement(buf.as_slice()) {
                        Ok(s) => {
                            proof {
                                lemma_stmts_view_push(stmts@, s);
                            }
                            stmts.push(s);
                            buf.clear();
                            proof {
                                assert(toks_view(buf@) =~= Seq::<TokensModel>::empty());
                            }
                        },
                        Err(e) => {
                            return Err(e);
                        },
                    }
                }
            },
            _ => {
                let c = t.clone();
                proof {
                    lemma_toks_view_push(buf@, c);
                }
                buf.push(c);
            },
        }
        i += 1;
    }
    Err(ParseError::UnbalancedBraces)
}

// ---------------------------------------------------------------------------
// Functions (Stage B)
// ---------------------------------------------------------------------------

/// The signature grammar, fixed and exact: `fn` IDENT `(` `)` `->` IDENT.
pub open spec fn spec_parse_fn_signature(toks: Seq<TokensModel>) -> Result<SigModel, ParseError> {
    if toks.len() == 6 && toks[0].token is Fn && toks[1].token is Ident && toks[2].token
        is LParen && toks[3].token is RParen && toks[4].token is Arrow && toks[5].token
        is Ident {
        Ok(SigModel { name: toks[1].token->Ident_0, return_type: toks[5].token->Ident_0 })
    } else {
        Err(ParseError::InvalidSignature)
    }
}

/// Parses a function signature.
pub fn parse_fn_signature(toks: &[Tokens]) -> (r: Result<FnSignature, ParseError>)
    ensures
        parse_result_view(r) == spec_parse_fn_signature(toks_view(toks@)),
{
    let ghost tv = toks_view(toks@);
    if toks.len() != 6 {
        return Err(ParseError::InvalidSignature);
    }
    let fn_ok = match &slice_index_get(toks, 0).token {
        Token::Fn => true,
        _ => false,
    };
    assert(fn_ok == (tv[0].token is Fn));
    if !fn_ok {
        return Err(ParseError::InvalidSignature);
    }
    let name = match &slice_index_get(toks, 1).token {
        Token::Ident(name) => name.clone(),
        _ => {
            assert(!(tv[1].token is Ident));
            return Err(ParseError::InvalidSignature);
        },
    };
    let parens_ok = match &slice_index_get(toks, 2).token {
        Token::LParen => true,
        _ => false,
    };
    assert(parens_ok == (tv[2].token is LParen));
    if !parens_ok {
        return Err(ParseError::InvalidSignature);
    }
    let close_ok = match &slice_index_get(toks, 3).token {
        Token::RParen => true,
        _ => false,
    };
    assert(close_ok == (tv[3].token is RParen));
    if !close_ok {
        return Err(ParseError::InvalidSignature);
    }
    let arrow_ok = match &slice_index_get(toks, 4).token {
        Token::Arrow => true,
        _ => false,
    };
    assert(arrow_ok == (tv[4].token is Arrow));
    if !arrow_ok {
        return Err(ParseError::InvalidSignature);
    }
    let return_type = match &slice_index_get(toks, 5).token {
        Token::Ident(name) => name.clone(),
        _ => {
            assert(!(tv[5].token is Ident));
            return Err(ParseError::InvalidSignature);
        },
    };
    Ok(FnSignature { name, return_type })
}

/// Index of the first `{` of a token run, if any.
pub open spec fn spec_first_lbrace(toks: Seq<TokensModel>, i: int) -> Option<int>
    decreases toks.len() - i,
{
    if i < 0 || i >= toks.len() {
        None
    } else if toks[i].token is LBrace {
        Some(i)
    } else {
        spec_first_lbrace(toks, i + 1)
    }
}

fn first_lbrace(toks: &[Tokens]) -> (r: Option<usize>)
    ensures
        match r {
            Some(k) => k < toks@.len() && spec_first_lbrace(toks_view(toks@), 0) == Some(
                k as int,
            ),
            None => spec_first_lbrace(toks_view(toks@), 0) is None,
        },
{
    let ghost tv = toks_view(toks@);
    let n = toks.len();
    let mut i: usize = 0;
    while i < n
        invariant
            i <= n,
            n == tv.len(),
            tv == toks_view(toks@),
            spec_first_lbrace(tv, 0) == spec_first_lbrace(tv, i as int),
        decreases n - i,
    {
        let hit = match &slice_index_get(toks, i).token {
            Token::LBrace => true,
            _ => false,
        };
        assert(hit == (tv[i as int].token is LBrace));
        if hit {
            return Some(i);
        }
        i += 1;
    }
    None
}

/// The declared return type that stands for "no value": a function so
/// declared must not carry a terminal return, every other function must.
pub open spec fn spec_is_no_value_type(t: Seq<char>) -> bool {
    t == "void"@
}

/// One function: signature before the first `{`, scope from it on, then the
/// declared return type cross-checked against the terminal return.
pub open spec fn spec_parse_function(toks: Seq<TokensModel>) -> Result<FunctionModel, ParseError> {
    match spec_first_lbrace(toks, 0) {
        None => Err(ParseError::UnexpectedToken),
        Some(k) => {
            if 0 <= k < toks.len() {
                match spec_parse_fn_signature(toks.take(k)) {
                    Err(e) => Err(e),
                    Ok(sig) => match spec_parse_scope(toks.skip(k)) {
                        Err(e) => Err(e),
                        Ok(scope) => {
                            if spec_is_no_value_type(sig.return_type) {
                                if scope.ret is Some {
                                    Err(ParseError::UnexpectedToken)
                                } else {
                                    Ok(FunctionModel { fn_signature: sig, scope })
                                }
                            } else {
                                if scope.ret is None {
                                    Err(ParseError::MissingReturn)
                                } else {
                                    Ok(FunctionModel { fn_signature: sig, scope })
                                }
                            }
                        },
                    },
                }
            } else {
                Err(ParseError::UnexpectedToken)
            }
        },
    }
}

/// Parses one function's worth of tokens.
pub fn parse_function(toks: &[Tokens]) -> (r: Result<Functions, ParseError>)
    ensures
        parse_result_view(r) == spec_parse_function(toks_view(toks@)),
{
    let ghost tv = toks_view(toks@);
    match first_lbrace(toks) {
        None => Err(ParseError::UnexpectedToken),
        Some(k) => {
            let sig_toks = slice_subrange(toks, 0, k);
            let body_toks = slice_subrange(toks, k, toks.len());
            proof {
                assert(toks_view(sig_toks@) =~= tv.take(k as int));
                assert(toks_view(body_toks@) =~= tv.skip(k as int));
            }
            let fn_signature = match parse_fn_signature(sig_toks) {
                Ok(sig) => sig,
                Err(e) => {
                    return Err(e);
                },
            };
            let scope = match parse_scope(body_toks) {
                Ok(s) => s,
                Err(e) => {
                    return Err(e);
                },
            };
            if crate::text::str_eq(fn_signature.return_type.as_str(), "void") {
                if scope.ret.is_some() {
                    return Err(ParseError::UnexpectedToken);
                }
                Ok(Functions { fn_signature, scope })
            } else {
                if scope.ret.is_none() {
                    return Err(ParseError::MissingReturn);
                }
                Ok(Functions { fn_signature, scope })
            }
        },
    }
}

// ---------------------------------------------------------------------------
// Top level (Stage A)
// ---------------------------------------------------------------------------

/// The top-level grouping scan: a new function buffer opens at `fn`, brace
/// depth is tracked, and each time the depth returns to zero the buffered
/// group is parsed as one function.
pub open spec fn spec_toplevel_from(
    toks: Seq<TokensModel>,
    i: int,
    depth: int,
    buf: Seq<TokensModel>,
    funcs: Seq<FunctionModel>,
) -> Result<AstModel, ParseError>
    decreases toks.len() - i,
{
    if i < 0 || i >= toks.len() {
        if depth != 0 {
            Err(ParseError::UnbalancedBraces)
        } else if buf.len() > 0 {
            Err(ParseError::UnexpectedToken)
        } else {
            Ok(AstModel { functions: funcs })
        }
    } else {
        let t = toks[i];
        if t.token is Fn && buf.len() > 0 {
            Err(ParseError::UnexpectedToken)
        } else if t.token is LBrace {
            spec_toplevel_from(toks, i + 1, depth + 1, buf.push(t), funcs)
        } else if t.token is RBrace {
            if depth == 0 {
                Err(ParseError::UnbalancedBraces)
            } else if depth == 1 {
                match spec_parse_function(buf.push(t)) {
                    Ok(f) => spec_toplevel_from(toks, i + 1, 0, Seq::empty(), funcs.push(f)),
                    Err(e) => Err(e),
                }
            } else {
                spec_toplevel_from(toks, i + 1, depth - 1, buf.push(t), funcs)
            }
        } else {
            spec_toplevel_from(toks, i + 1, depth, buf.push(t), funcs)
        }
    }
}

/// What parsing a whole token stream yields.
pub open spec fn spec_parse_toplevel(toks: Seq<TokensModel>) -> Result<AstModel, ParseError> {
    spec_toplevel_from(toks, 0, 0, Seq::empty(), Seq::empty())
}

/// Number of top-level balanced `{...}` groups of a token stream: one for
/// each `}` that returns the brace depth to zero.
pub open spec fn spec_count_top_groups(toks: Seq<TokensModel>, i: int, depth: int) -> int
    decreases toks.len() - i,
{
    if i < 0 || i >= toks.len() {
        0
    } else {
        let t = toks[i];
        if t.token is LBrace {
            spec_count_top_groups(toks, i + 1, depth + 1)
        } else if t.token is RBrace {
            if depth == 1 {
                1 + spec_count_top_groups(toks, i + 1, 0)
            } else {
                spec_count_top_groups(toks, i + 1, depth - 1)
            }
        } else {
            spec_count_top_groups(toks, i + 1, depth)
        }
    }
}

proof fn lemma_toplevel_count_from(
    toks: Seq<TokensModel>,
    i: int,
    depth: int,
    buf: Seq<TokensModel>,
    funcs: Seq<FunctionModel>,
    ast: AstModel,
)
    requires
        spec_toplevel_from(toks, i, depth, buf, funcs) == Ok::<AstModel, ParseError>(ast),
    ensures
        ast.functions.len() == funcs.len() + spec_count_top_groups(toks, i, depth),
    decreases toks.len() - i,
{
    if i < 0 || i >= toks.len() {
    } else {
        let t = toks[i];
        if t.token is Fn && buf.len() > 0 {
        } else if t.token is LBrace {
            lemma_toplevel_count_from(toks, i + 1, depth + 1, buf.push(t), funcs, ast);
        } else if t.token is RBrace {
            if depth == 1 {
                let f = spec_parse_function(buf.push(t))->Ok_0;
                lemma_toplevel_count_from(toks, i + 1, 0, Seq::empty(), funcs.push(f), ast);
            } else {
                lemma_toplevel_count_from(toks, i + 1, depth - 1, buf.push(t), funcs, ast);
            }
        } else {
            lemma_toplevel_count_from(toks, i + 1, depth, buf.push(t), funcs, ast);
        }
    }
}

/// For every token stream the top-level grouping stage accepts, it
/// produces exactly as many functions as the stream has top-level balanced
/// brace groups (each of which, on the accepted stream, began at a `fn`
/// keyword: any other opening fails before this point).
pub proof fn lemma_toplevel_function_count(toks: Seq<TokensModel>, ast: AstModel)
    requires
        spec_parse_toplevel(toks) == Ok::<AstModel, ParseError>(ast),
    ensures
        ast.functions.len() == spec_count_top_groups(toks, 0, 0),
{
    lemma_toplevel_count_from(toks, 0, 0, Seq::empty(), Seq::empty(), ast);
}

/// Brace delta of one token.
pub open spec fn spec_brace_delta(t: TokenModel) -> int {
    if t is LBrace {
        1
    } else if t is RBrace {
        -1
    } else {
        0
    }
}

/// Brace depth after the first `p` tokens of a stream.
pub open spec fn spec_brace_depth(toks: Seq<TokensModel>, p: int) -> int
    decreases p,
{
    if p <= 0 {
        0
    } else {
        spec_brace_depth(toks, p - 1) + spec_brace_delta(toks[p - 1].token)
    }
}

proof fn lemma_toplevel_depth_from(
    toks: Seq<TokensModel>,
    i: int,
    depth: int,
    buf: Seq<TokensModel>,
    funcs: Seq<FunctionModel>,
)
    requires
        0 <= i <= toks.len(),
        0 <= depth,
        spec_toplevel_from(toks, i, depth, buf, funcs) is Ok,
    ensures
        forall|p: int|
            i <= p <= toks.len() ==> depth + #[trigger] spec_brace_depth(toks, p)
                - spec_brace_depth(toks, i) >= 0,
        depth + spec_brace_depth(toks, toks.len() as int) - spec_brace_depth(toks, i) == 0,
    decreases toks.len() - i,
{
    if i >= toks.len() {
    } else {
        let t = toks[i];
        assert(spec_brace_depth(toks, i + 1) == spec_brace_depth(toks, i) + spec_brace_delta(
            t.token,
        ));
        if t.token is LBrace {
            lemma_toplevel_depth_from(toks, i + 1, depth + 1, buf.push(t), funcs);
        } else if t.token is RBrace {
            if depth == 1 {
                let f = spec_parse_function(buf.push(t))->Ok_0;
                lemma_toplevel_depth_from(toks, i + 1, 0, Seq::empty(), funcs.push(f));
            } else {
                lemma_toplevel_depth_from(toks, i + 1, depth - 1, buf.push(t), funcs);
            }
        } else {
            lemma_toplevel_depth_from(toks, i + 1, depth, buf.push(t), funcs);
        }
    }
}

/// On every token stream the top-level stage accepts, the brace depth
/// never goes negative at any point of the scan and returns to zero at the
/// end.
pub proof fn lemma_accepted_braces_balanced(toks: Seq<TokensModel>)
    requires
        spec_parse_toplevel(toks) is Ok,
    ensures
        forall|p: int| 0 <= p <= toks.len() ==> #[trigger] spec_brace_depth(toks, p) >= 0,
        spec_brace_depth(toks, toks.len() as int) == 0,
{
    lemma_toplevel_depth_from(toks, 0, 0, Seq::empty(), Seq::empty());
}

/// A stream whose brace depth goes negative at any point is rejected: the
/// scan ends in an error and never produces a program.
pub proof fn lemma_negative_depth_rejected(toks: Seq<TokensModel>, p: int)
    requires
        0 <= p <= toks.len(),
        spec_brace_depth(toks, p) < 0,
    ensures
        spec_parse_toplevel(toks) is Err,
{
    if spec_parse_toplevel(toks) is Ok {
        lemma_accepted_braces_balanced(toks);
    }
}

proof fn lemma_scope_depth_from(
    toks: Seq<TokensModel>,
    i: int,
    depth: int,
    buf: Seq<TokensModel>,
    stmts: Seq<StmtModel>,
)
    requires
        0 <= i <= toks.len(),
        1 <= depth,
        spec_scope_from(toks, i, depth, buf, stmts) is Ok,
    ensures
        forall|p: int|
            i <= p <= toks.len() ==> depth + #[trigger] spec_brace_depth(toks, p)
                - spec_brace_depth(toks, i) >= 0,
        depth + spec_brace_depth(toks, toks.len() as int) - spec_brace_depth(toks, i) == 0,
    decreases toks.len() - i,
{
    if i >= toks.len() {
    } else {
        let t = toks[i];
        assert(spec_brace_depth(toks, i + 1) == spec_brace_depth(toks, i) + spec_brace_delta(
            t.token,
        ));
        if t.token is LBrace {
            lemma_scope_depth_from(toks, i + 1, depth + 1, buf.push(t), stmts);
        } else if t.token is RBrace {
            if depth == 1 {
                assert(i == toks.len() - 1);
            } else {
                lemma_scope_depth_from(toks, i + 1, depth - 1, buf.push(t), stmts);
            }
        } else if t.token is Semi && depth == 1 {
            if buf.len() == 0 {
                lemma_scope_depth_from(toks, i + 1, depth, buf, stmts);
            } else {
                let s = spec_parse_statement(buf)->Ok_0;
                lemma_scope_depth_from(toks, i + 1, depth, Seq::empty(), stmts.push(s));
            }
        } else {
            lemma_scope_depth_from(toks, i + 1, depth, buf.push(t), stmts);
        }
    }
}

/// On every token run the scope stage accepts, the brace depth never goes
/// negative at any point of the scan and returns to zero exactly at the
/// scope's closing brace.
pub proof fn lemma_accepted_scope_braces(toks: Seq<TokensModel>)
    requires
        spec_parse_scope(toks) is Ok,
    ensures
        forall|p: int| 0 <= p <= toks.len() ==> #[trigger] spec_brace_depth(toks, p) >= 0,
        spec_brace_depth(toks, toks.len() as int) == 0,
{
    assert(toks.len() > 0 && toks[0].token is LBrace);
    assert(spec_brace_depth(toks, 0) == 0);
    assert(spec_brace_depth(toks, 1) == 1);
    lemma_scope_depth_from(toks, 1, 1, Seq::empty(), Seq::empty());
    assert forall|p: int| 0 <= p <= toks.len() implies #[trigger] spec_brace_depth(toks, p)
        >= 0 by {
        if p >= 1 {
            assert(1 + spec_brace_depth(toks, p) - spec_brace_depth(toks, 1) >= 0);
        }
    }
}

/// A scope token run whose brace depth goes negative at any point is
/// rejected.
pub proof fn lemma_negative_scope_depth_rejected(toks: Seq<TokensModel>, p: int)
    requires
        0 <= p <= toks.len(),
        spec_brace_depth(toks, p) < 0,
    ensures
        spec_parse_scope(toks) is Err,
{
    if spec_parse_scope(toks) is Ok {
        lemma_accepted_scope_braces(toks);
    }
}

proof fn lemma_funcs_view_push(f: Seq<Functions>, x: Functions)
    ensures
        funcs_view(f.push(x)) == funcs_view(f).push(x@),
{
    assert(funcs_view(f.push(x)) =~= funcs_view(f).push(x@));
}

/// Parses the full token stream into a program: one function per
/// top-level balanced brace group.
#[verifier::loop_isolation(false)]
pub fn parse_toplevel(tokens: Vec<Tokens>) -> (r: Result<Ast, ParseError>)
    ensures
        parse_result_view(r) == spec_parse_toplevel(toks_view(tokens@)),
{
    let ghost tv = toks_view(tokens@);
    let n = tokens.len();
    let mut buf: Vec<Tokens> = Vec::new();
    let mut functions: Vec<Functions> = Vec::new();
    let mut depth: usize = 0;
    let mut i: usize = 0;
    proof {
        assert(toks_view(buf@) =~= Seq::<TokensModel>::empty());
        assert(funcs_view(functions@) =~= Seq::<FunctionModel>::empty());
    }
    while i < n
        invariant
            i <= n,
            depth <= i,
            spec_parse_toplevel(tv) == spec_toplevel_from(
                tv,
                i as int,
                depth as int,
                toks_view(buf@),
                funcs_view(functions@),
            ),
        decreases n - i,
    {
        let t = &tokens[i];
        assert(tv[i as int] == tokens@[i as int]@);
        let is_fn = match &t.token {
            Token::Fn => true,
            _ => false,
        };
        assert(is_fn == (tv[i as int].token is Fn));
        if is_fn && buf.len() > 0 {
            return Err(ParseError::UnexpectedToken);
        }
        match &t.token {
            Token::LBrace => {
                let c = t.clone();
                proof {
                    lemma_toks_view_push(buf@, c);
                }
                buf.push(c);
                depth = depth + 1;
            },
            Token::RBrace => {
                if depth == 0 {
                    return Err(ParseError::UnbalancedBraces);
                }
                let c = t.clone();
                proof {
                    lemma_toks_view_push(buf@, c);
                }
                buf.push(c);
                if depth == 1 {
                    match parse_function(buf.as_slice()) {
                        Ok(f) => {
                            proof {
                                lemma_funcs_view_push(functions@, f);
                            }
                            functions.push(f);
                            buf.clear();
                            depth = 0;
                            proof {
                                assert(toks_view(buf@) =~= Seq::<TokensModel>::empty());
                            }
                        },
                        Err(e) => {
                            return Err(e);
                        },
                    }
                } else {
                    depth = depth - 1;
                }
            },
            _ => {
                let c = t.clone();
                proof {
                    lemma_toks_view_push(buf@, c);
                }
                buf.push(c);
            },
        }
        i += 1;
    }
    if depth != 0 {
        return Err(ParseError::UnbalancedBraces);
    }
    if buf.len() > 0 {
        return Err(ParseError::UnexpectedToken);
    }
    Ok(Ast { functions })
}

} // verus!
