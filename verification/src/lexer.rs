//! Lexical analysis: source lines to positioned tokens.
//!
//! A line is scanned character by character, accumulating non-delimiter
//! characters into a pending buffer. A delimiter (whitespace or one of the
//! single-character punctuation marks) first flushes the buffer as a
//! classified token, then — for non-whitespace delimiters — is emitted as a
//! punctuation token of its own. The whole scan is specified by the
//! recursive `lex_line_from` spec function, and each executable function is
//! proved to compute exactly what the spec says.

use vstd::prelude::*;
use crate::text::{chars_eq_str, chars_to_string};

verus! {

/// Smallest lexical unit: keyword, identifier, integer literal, or
/// punctuation.
#[derive(Debug, PartialEq, Eq)]
pub enum Token {
    Const,
    Mut,
    Ident(String),
    Fn,
    Arrow,
    Eq,
    Semi,
    Colon,
    LParen,
    RParen,
    IntLit(i32),
    LBrace,
    RBrace,
    Plus,
    Minus,
    Mult,
    FSlash,
    Return,
}

/// A token together with the source line and column where it starts.
#[derive(Debug, PartialEq, Eq)]
pub struct Tokens {
    pub token: Token,
    pub line: usize,
    pub loc: usize,
}

/// Why a pending buffer could not be classified.
#[derive(Debug, Clone, Copy, PartialEq, Eq)]
pub enum LexErrorKind {
    InvalidCharacterSequence,
    InvalidIdentifier,
    InvalidNumericLiteral,
}

/// A lexing failure, locating the first unlexable buffer.
#[derive(Debug, Clone, Copy, PartialEq, Eq)]
pub struct LexerError {
    pub line: usize,
    pub col: usize,
    pub reason: LexErrorKind,
}

/// The result of lexing one line.
pub type LexLineResult = Result<Vec<Tokens>, LexerError>;

/// Mathematical model of a token: identifier text as a character sequence,
/// literal value as an unbounded integer.
pub ghost enum TokenModel {
    Const,
    Mut,
    Ident(Seq<char>),
    Fn,
    Arrow,
    Eq,
    Semi,
    Colon,
    LParen,
    RParen,
    IntLit(int),
    LBrace,
    RBrace,
    Plus,
    Minus,
    Mult,
    FSlash,
    Return,
}

/// Mathematical model of a positioned token.
pub ghost struct TokensModel {
    pub line: int,
    pub loc: int,
    pub token: TokenModel,
}

/// Mathematical model of a lexing failure.
pub ghost struct LexErrorModel {
    pub line: int,
    pub col: int,
    pub reason: LexErrorKind,
}

impl View for Token {
    type V = TokenModel;

    open spec fn view(&self) -> TokenModel {
        match self {
            Token::Const => TokenModel::Const,
            Token::Mut => TokenModel::Mut,
            Token::Ident(s) => TokenModel::Ident(s@),
            Token::Fn => TokenModel::Fn,
            Token::Arrow => TokenModel::Arrow,
            Token::Eq => TokenModel::Eq,
            Token::Semi => TokenModel::Semi,
            Token::Colon => TokenModel::Colon,
            Token::LParen => TokenModel::LParen,
            Token::RParen => TokenModel::RParen,
            Token::IntLit(n) => TokenModel::IntLit(*n as int),
            Token::LBrace => TokenModel::LBrace,
            Token::RBrace => TokenModel::RBrace,
            Token::Plus => TokenModel::Plus,
            Token::Minus => TokenModel::Minus,
            Token::Mult => TokenModel::Mult,
            Token::FSlash => TokenModel::FSlash,
            Token::Return => TokenModel::Return,
        }
    }
}

impl View for Tokens {
    type V = TokensModel;

    open spec fn view(&self) -> TokensModel {
        TokensModel { line: self.line as int, loc: self.loc as int, token: self.token@ }
    }
}

impl View for LexerError {
    type V = LexErrorModel;

    open spec fn view(&self) -> LexErrorModel {
        LexErrorModel { line: self.line as int, col: self.col as int, reason: self.reason }
    }
}

impl Clone for Token {
    fn clone(&self) -> (r: Self)
        ensures
            r@ == self@,
    {
        match self {
            Token::Const => Token::Const,
            Token::Mut => Token::Mut,
            Token::Ident(s) => Token::Ident(s.clone()),
            Token::Fn => Token::Fn,
            Token::Arrow => Token::Arrow,
            Token::Eq => Token::Eq,
            Token::Semi => Token::Semi,
            Token::Colon => Token::Colon,
            Token::LParen => Token::LParen,
            Token::RParen => Token::RParen,
            Token::IntLit(n) => Token::IntLit(*n),
            Token::LBrace => Token::LBrace,
            Token::RBrace => Token::RBrace,
            Token::Plus => Token::Plus,
            Token::Minus => Token::Minus,
            Token::Mult => Token::Mult,
            Token::FSlash => Token::FSlash,
            Token::Return => Token::Return,
        }
    }
}

impl Clone for Tokens {
    fn clone(&self) -> (r: Self)
        ensures
            r@ == self@,
    {
        Tokens { token: self.token.clone(), line: self.line, loc: self.loc }
    }
}

/// Deep view of a token sequence.
pub open spec fn toks_view(ts: Seq<Tokens>) -> Seq<TokensModel> {
    ts.map_values(|t: Tokens| t@)
}

pub proof fn lemma_toks_view_push(ts: Seq<Tokens>, t: Tokens)
    ensures
        toks_view(ts.push(t)) == toks_view(ts).push(t@),
{
    assert(toks_view(ts.push(t)) =~= toks_view(ts).push(t@));
}

// ---------------------------------------------------------------------------
// Character classes and buffer classification
// ---------------------------------------------------------------------------

pub open spec fn is_digit(c: char) -> bool {
    '0' <= c && c <= '9'
}

pub open spec fn is_letter(c: char) -> bool {
    ('a' <= c && c <= 'z') || ('A' <= c && c <= 'Z')
}

pub open spec fn is_ident_start(c: char) -> bool {
    is_letter(c) || c == '_'
}

pub open spec fn is_ident_char(c: char) -> bool {
    is_ident_start(c) || is_digit(c)
}

pub open spec fn all_digits(s: Seq<char>) -> bool {
    forall|j: int| 0 <= j < s.len() ==> is_digit(#[trigger] s[j])
}

/// A buffer shaped like an integer literal: an optional leading minus sign,
/// then one or more decimal digits.
pub open spec fn int_shape(s: Seq<char>) -> bool {
    if s.len() > 0 && s[0] == '-' {
        s.len() > 1 && all_digits(s.skip(1))
    } else {
        s.len() > 0 && all_digits(s)
    }
}

pub open spec fn char_digit(c: char) -> int {
    if c == '0' { 0 } else if c == '1' { 1 } else if c == '2' { 2 } else if c == '3' { 3 }
    else if c == '4' { 4 } else if c == '5' { 5 } else if c == '6' { 6 } else if c == '7' { 7 }
    else if c == '8' { 8 } else if c == '9' { 9 } else { 0 }
}

/// Value of a run of decimal digits.
pub open spec fn dec_value(s: Seq<char>) -> int
    decreases s.len(),
{
    if s.len() == 0 {
        0
    } else {
        dec_value(s.drop_last()) * 10 + char_digit(s.last())
    }
}

/// Signed value of an integer-literal buffer.
pub open spec fn int_value(s: Seq<char>) -> int {
    if s.len() > 0 && s[0] == '-' {
        -dec_value(s.skip(1))
    } else {
        dec_value(s)
    }
}

pub open spec fn i32_in_range(v: int) -> bool {
    -0x8000_0000 <= v <= 0x7fff_ffff
}

/// Classification of a flushed buffer: exact keyword match wins first; then
/// an integer-literal shape (the whole buffer is parsed, not merely its
/// first character); otherwise an identifier, whose first character must be
/// a letter or underscore and whose remaining characters must be letters,
/// digits or underscores.
pub open spec fn classify(s: Seq<char>) -> Result<TokenModel, LexErrorKind> {
    if s == "const"@ {
        Ok(TokenModel::Const)
    } else if s == "mut"@ {
        Ok(TokenModel::Mut)
    } else if s == "return"@ {
        Ok(TokenModel::Return)
    } else if s == "fn"@ {
        Ok(TokenModel::Fn)
    } else if s == "->"@ {
        Ok(TokenModel::Arrow)
    } else if int_shape(s) {
        if i32_in_range(int_value(s)) {
            Ok(TokenModel::IntLit(int_value(s)))
        } else {
            Err(LexErrorKind::InvalidNumericLiteral)
        }
    } else if s.len() > 0 && is_ident_start(s[0]) {
        if forall|j: int| 0 <= j < s.len() ==> is_ident_char(#[trigger] s[j]) {
            Ok(TokenModel::Ident(s))
        } else {
            Err(LexErrorKind::InvalidCharacterSequence)
        }
    } else {
        Err(LexErrorKind::InvalidIdentifier)
    }
}

// ---------------------------------------------------------------------------
// Line scanning, specified
// ---------------------------------------------------------------------------

pub open spec fn is_space(c: char) -> bool {
    c == ' ' || c == '\t'
}

/// The punctuation token a delimiter character stands for, if it is a
/// non-whitespace delimiter.
pub open spec fn spec_delim_token(c: char) -> Option<TokenModel> {
    if c == '=' { Some(TokenModel::Eq) }
    else if c == ';' { Some(TokenModel::Semi) }
    else if c == ':' { Some(TokenModel::Colon) }
    else if c == '+' { Some(TokenModel::Plus) }
    else if c == '(' { Some(TokenModel::LParen) }
    else if c == ')' { Some(TokenModel::RParen) }
    else if c == '{' { Some(TokenModel::LBrace) }
    else if c == '}' { Some(TokenModel::RBrace) }
    else { None }
}

/// Flushing a pending buffer that started at column `b`: an empty buffer
/// emits nothing; a non-empty one is classified and appended, or turns into
/// the first lexing error of the line.
pub open spec fn flush_spec(line: int, b: int, buf: Seq<char>, acc: Seq<TokensModel>) -> Result<
    Seq<TokensModel>,
    LexErrorModel,
> {
    if buf.len() > 0 {
        match classify(buf) {
            Ok(t) => Ok(acc.push(TokensModel { line, loc: b, token: t })),
            Err(k) => Err(LexErrorModel { line, col: b, reason: k }),
        }
    } else {
        Ok(acc)
    }
}

/// One line of the lexer, from position `i` with the pending buffer being
/// `chars[b..i]` and `acc` the tokens already emitted.
pub open spec fn lex_line_from(
    line: int,
    chars: Seq<char>,
    i: int,
    b: int,
    acc: Seq<TokensModel>,
) -> Result<Seq<TokensModel>, LexErrorModel>
    decreases chars.len() - i,
{
    if i < 0 || i >= chars.len() {
        flush_spec(line, b, chars.subrange(b, i), acc)
    } else {
        let c = chars[i];
        if is_space(c) {
            match flush_spec(line, b, chars.subrange(b, i), acc) {
                Ok(acc2) => lex_line_from(line, chars, i + 1, i + 1, acc2),
                Err(e) => Err(e),
            }
        } else if spec_delim_token(c) is Some {
            match flush_spec(line, b, chars.subrange(b, i), acc) {
                Ok(acc2) => lex_line_from(
                    line,
                    chars,
                    i + 1,
                    i + 1,
                    acc2.push(TokensModel { line, loc: i, token: spec_delim_token(c)->Some_0 }),
                ),
                Err(e) => Err(e),
            }
        } else {
            lex_line_from(line, chars, i + 1, b, acc)
        }
    }
}

/// What lexing one whole line yields.
pub open spec fn spec_lex_line(line: int, chars: Seq<char>) -> Result<
    Seq<TokensModel>,
    LexErrorModel,
> {
    lex_line_from(line, chars, 0, 0, Seq::empty())
}

/// Deep view of a per-line lexing result.
pub open spec fn lex_result_view(r: LexLineResult) -> Result<Seq<TokensModel>, LexErrorModel> {
    match r {
        Ok(v) => Ok(toks_view(v@)),
        Err(e) => Err(e@),
    }
}

// ---------------------------------------------------------------------------
// Executable lexer
// ---------------------------------------------------------------------------

/// Digit value of a decimal digit character.
fn digit_val(c: char) -> (d: u64)
    requires
        is_digit(c),
    ensures
        d == char_digit(c),
        d <= 9,
{
    if c == '0' { 0 } else if c == '1' { 1 } else if c == '2' { 2 } else if c == '3' { 3 }
    else if c == '4' { 4 } else if c == '5' { 5 } else if c == '6' { 6 } else if c == '7' { 7 }
    else if c == '8' { 8 } else { 9 }
}

proof fn lemma_dec_value_nonneg(s: Seq<char>)
    ensures
        dec_value(s) >= 0,
    decreases s.len(),
{
    if s.len() > 0 {
        lemma_dec_value_nonneg(s.drop_last());
    }
}

/// Appending digits never shrinks the value of a digit run.
proof fn lemma_dec_value_extend_ge(s: Seq<char>, k: int)
    requires
        0 <= k <= s.len(),
    ensures
        dec_value(s) >= dec_value(s.take(k)),
    decreases s.len() - k,
{
    if k < s.len() {
        lemma_dec_value_nonneg(s.drop_last());
        assert(s.drop_last().take(k) =~= s.take(k));
        lemma_dec_value_extend_ge(s.drop_last(), k);
        assert(dec_value(s) == dec_value(s.drop_last()) * 10 + char_digit(s.last()));
    } else {
        assert(s.take(k) =~= s);
    }
}

/// Parses a run of decimal digits `s[start..]`, reporting whether the value
/// exceeds what any 32-bit integer (of either sign) can hold.
fn parse_digit_run(v: &Vec<char>, start: usize) -> (r: Option<u64>)
    requires
        start <= v@.len(),
        all_digits(v@.skip(start as int)),
    ensures
        match r {
            Some(val) => val == dec_value(v@.skip(start as int)) && val <= 0x8000_0000,
            None => dec_value(v@.skip(start as int)) > 0x8000_0000,
        },
{
    let ghost digits = v@.skip(start as int);
    let mut val: u64 = 0;
    let mut j: usize = start;
    while j < v.len()
        invariant
            start <= j <= v@.len(),
            digits == v@.skip(start as int),
            all_digits(digits),
            val == dec_value(digits.take(j - start)),
            val <= 0x8000_0000,
        decreases v@.len() - j,
    {
        proof {
            assert(digits[j - start] == v@[j as int]);
            assert(is_digit(digits[j - start]));
        }
        let d = digit_val(v[j]);
        let val2 = val * 10 + d;
        proof {
            let pre = digits.take(j - start);
            let post = digits.take(j + 1 - start);
            assert(post.drop_last() =~= pre);
            assert(post.last() == digits[j - start]);
            assert(digits[j - start] == v@[j as int]);
        }
        if val2 > 0x8000_0000 {
            proof {
                lemma_dec_value_extend_ge(digits, j + 1 - start);
            }
            return None;
        }
        val = val2;
        j += 1;
    }
    proof {
        assert(digits.take(v@.len() - start) =~= digits);
    }
    Some(val)
}

/// True exactly when every character of `v` from `start` on is a decimal
/// digit.
fn all_digits_range(v: &Vec<char>, start: usize) -> (r: bool)
    requires
        start <= v@.len(),
    ensures
        r == all_digits(v@.skip(start as int)),
{
    let ghost digits = v@.skip(start as int);
    let mut j: usize = start;
    while j < v.len()
        invariant
            start <= j <= v@.len(),
            digits == v@.skip(start as int),
            forall|k: int| start <= k < j ==> is_digit(#[trigger] v@[k]),
        decreases v@.len() - j,
    {
        let c = v[j];
        if !('0' <= c && c <= '9') {
            proof {
                assert(digits[j - start] == v@[j as int]);
                assert(!is_digit(digits[j - start]));
            }
            return false;
        }
        j += 1;
    }
    proof {
        assert(forall|k: int| 0 <= k < digits.len() ==> digits[k] == v@[k + start]);
    }
    true
}

/// Classifies a flushed buffer: keyword, integer literal, or identifier.
#[verifier::loop_isolation(false)]
fn identify_token(lit: &Vec<char>) -> (r: Result<Token, LexErrorKind>)
    requires
        lit@.len() > 0,
    ensures
        match r {
            Ok(t) => classify(lit@) == Ok::<TokenModel, LexErrorKind>(t@),
            Err(k) => classify(lit@) == Err::<TokenModel, LexErrorKind>(k),
        },
{
    if chars_eq_str(lit, "const") {
        return Ok(Token::Const);
    }
    if chars_eq_str(lit, "mut") {
        return Ok(Token::Mut);
    }
    if chars_eq_str(lit, "return") {
        return Ok(Token::Return);
    }
    if chars_eq_str(lit, "fn") {
        return Ok(Token::Fn);
    }
    if chars_eq_str(lit, "->") {
        return Ok(Token::Arrow);
    }
    // integer-literal shape: optional leading '-', then digits only
    let first = lit[0];
    let start: usize = if first == '-' { 1 } else { 0 };
    let all_dig = lit.len() > start && all_digits_range(lit, start);
    proof {
        if start == 0 {
            assert(lit@.skip(0) =~= lit@);
        } else {
            assert(forall|k: int|
                0 <= k < lit@.skip(1).len() ==> lit@.skip(1)[k] == lit@[k + 1]);
        }
        assert(all_dig == int_shape(lit@));
    }
    if all_dig {
        let neg = start == 1;
        match parse_digit_run(lit, start) {
            Some(val) => {
                if neg {
                    let sval: i64 = -(val as i64);
                    assert(int_value(lit@) == sval);
                    return Ok(Token::IntLit(sval as i32));
                } else {
                    if val > 0x7fff_ffff {
                        assert(!i32_in_range(int_value(lit@)));
                        return Err(LexErrorKind::InvalidNumericLiteral);
                    }
                    return Ok(Token::IntLit(val as i32));
                }
            },
            None => {
                assert(!i32_in_range(int_value(lit@)));
                return Err(LexErrorKind::InvalidNumericLiteral);
            },
        }
    }
    // identifier
    if !((('a' <= first && first <= 'z') || ('A' <= first && first <= 'Z')) || first == '_') {
        return Err(LexErrorKind::InvalidIdentifier);
    }
    let mut k: usize = 0;
    while k < lit.len()
        invariant
            k <= lit@.len(),
            forall|m: int| 0 <= m < k ==> is_ident_char(#[trigger] lit@[m]),
        decreases lit@.len() - k,
    {
        let c = lit[k];
        let ok = (('a' <= c && c <= 'z') || ('A' <= c && c <= 'Z')) || c == '_' || ('0' <= c
            && c <= '9');
        if !ok {
            proof {
                assert(!is_ident_char(lit@[k as int]));
                assert(!(forall|m: int| 0 <= m < lit@.len() ==> is_ident_char(#[trigger] lit@[m])))
                    by {
                    assert(0 <= k < lit@.len() && !is_ident_char(lit@[k as int]));
                }
            }
            return Err(LexErrorKind::InvalidCharacterSequence);
        }
        k += 1;
    }
    Ok(Token::Ident(chars_to_string(lit)))
}

/// Shared flush-on-delimiter routine: classifies and emits the pending
/// buffer (if any), clearing it.
fn flush_buffer(
    line_number: usize,
    b: usize,
    buf: &mut Vec<char>,
    tokens: &mut Vec<Tokens>,
) -> (r: Result<(), LexerError>)
    ensures
        match r {
            Ok(_) => flush_spec(line_number as int, b as int, old(buf)@, toks_view(old(tokens)@))
                == Ok::<Seq<TokensModel>, LexErrorModel>(toks_view(final(tokens)@))
                && final(buf)@.len() == 0,
            Err(e) => flush_spec(line_number as int, b as int, old(buf)@, toks_view(old(tokens)@))
                == Err::<Seq<TokensModel>, LexErrorModel>(e@),
        },
{
    if buf.len() > 0 {
        match identify_token(buf) {
            Ok(token) => {
                let t = Tokens { line: line_number, loc: b, token };
                proof {
                    lemma_toks_view_push(tokens@, t);
                }
                tokens.push(t);
                buf.clear();
                Ok(())
            },
            Err(k) => Err(LexerError { line: line_number, col: b, reason: k }),
        }
    } else {
        Ok(())
    }
}

/// The punctuation token a delimiter character stands for.
fn delim_token(c: char) -> (r: Option<Token>)
    ensures
        match r {
            Some(t) => spec_delim_token(c) == Some(t@),
            None => spec_delim_token(c) is None,
        },
{
    if c == '=' { Some(Token::Eq) }
    else if c == ';' { Some(Token::Semi) }
    else if c == ':' { Some(Token::Colon) }
    else if c == '+' { Some(Token::Plus) }
    else if c == '(' { Some(Token::LParen) }
    else if c == ')' { Some(Token::RParen) }
    else if c == '{' { Some(Token::LBrace) }
    else if c == '}' { Some(Token::RBrace) }
    else { None }
}

/// Lexes one source line into positioned tokens, or fails at the first
/// unlexable buffer.
pub fn lex_lines(line_number: usize, line: String) -> (r: LexLineResult)
    ensures
        lex_result_view(r) == spec_lex_line(line_number as int, line@),
{
    let s = line.as_str();
    let n = s.unicode_len();
    let mut tokens: Vec<Tokens> = Vec::new();
    let mut buf: Vec<char> = Vec::new();
    let mut b: usize = 0;
    let mut i: usize = 0;
    proof {
        assert(toks_view(tokens@) =~= Seq::<TokensModel>::empty());
        assert(buf@ =~= line@.subrange(0, 0));
    }
    while i < n
        invariant
            b <= i <= n,
            n == line@.len(),
            s@ == line@,
            buf@ == line@.subrange(b as int, i as int),
            spec_lex_line(line_number as int, line@) == lex_line_from(
                line_number as int,
                line@,
                i as int,
                b as int,
                toks_view(tokens@),
            ),
        decreases n - i,
    {
        let c = s.get_char(i);
        if c == ' ' || c == '\t' {
            match flush_buffer(line_number, b, &mut buf, &mut tokens) {
                Ok(_) => {},
                Err(e) => {
                    return Err(e);
                },
            }
            b = i + 1;
        } else {
            match delim_token(c) {
                Some(token) => {
                    match flush_buffer(line_number, b, &mut buf, &mut tokens) {
                        Ok(_) => {},
                        Err(e) => {
                            return Err(e);
                        },
                    }
                    let t = Tokens { line: line_number, loc: i, token };
                    proof {
                        lemma_toks_view_push(tokens@, t);
                    }
                    tokens.push(t);
                    b = i + 1;
                },
                None => {
                    buf.push(c);
                    assert(line@.subrange(b as int, i as int).push(line@[i as int])
                        =~= line@.subrange(b as int, i + 1));
                },
            }
        }
        i += 1;
    }
    match flush_buffer(line_number, b, &mut buf, &mut tokens) {
        Ok(_) => Ok(tokens),
        Err(e) => Err(e),
    }
}

// ---------------------------------------------------------------------------
// Whole-source lexing
// ---------------------------------------------------------------------------

/// Lexing a whole source, line by line, concatenating each line's tokens;
/// the first failing line aborts the analysis.
pub open spec fn lex_source_from(
    lines: Seq<Seq<char>>,
    i: int,
    acc: Seq<TokensModel>,
) -> Result<Seq<TokensModel>, LexErrorModel>
    decreases lines.len() - i,
{
    if i < 0 || i >= lines.len() {
        Ok(acc)
    } else {
        match spec_lex_line(i, lines[i]) {
            Ok(ts) => lex_source_from(lines, i + 1, acc + ts),
            Err(e) => Err(e),
        }
    }
}

/// What lexing a whole source yields.
pub open spec fn spec_lex_source(lines: Seq<Seq<char>>) -> Result<
    Seq<TokensModel>,
    LexErrorModel,
> {
    lex_source_from(lines, 0, Seq::empty())
}

/// Deep view of a sequence of source lines.
pub open spec fn lines_view(lines: Seq<String>) -> Seq<Seq<char>> {
    lines.map_values(|l: String| l@)
}

/// Lexes source text, given as its sequence of lines, into one ordered
/// token list, or fails with the position of the first unlexable buffer.
pub fn lexical_analysis(lines: &Vec<String>) -> (r: Result<Vec<Tokens>, LexerError>)
    ensures
        lex_result_view(r) == spec_lex_source(lines_view(lines@)),
{
    let ghost ls = lines_view(lines@);
    let mut tokens: Vec<Tokens> = Vec::new();
    let mut i: usize = 0;
    proof {
        assert(toks_view(tokens@) =~= Seq::<TokensModel>::empty());
    }
    while i < lines.len()
        invariant
            i <= lines@.len(),
            ls == lines_view(lines@),
            spec_lex_source(ls) == lex_source_from(ls, i as int, toks_view(tokens@)),
        decreases lines@.len() - i,
    {
        assert(ls[i as int] == lines@[i as int]@);
        let line = lines[i].clone();
        match lex_lines(i, line) {
            Ok(mut chunk) => {
                proof {
                    assert(toks_view(tokens@ + chunk@) =~= toks_view(tokens@) + toks_view(
                        chunk@,
                    ));
                }
                tokens.append(&mut chunk);
            },
            Err(e) => {
                return Err(e);
            },
        }
        i += 1;
    }
    Ok(tokens)
}

} // verus!
