//! Recursive-descent parsing: the token sequence to an abstract syntax
//! tree, following the precedence ladder (lowest to highest)
//! logical-or, logical-and, comparison, additive, multiplicative, unary,
//! primary.
//!
//! Every sub-rule takes a starting index into the token sequence and
//! returns the parsed node together with the next index. The whole grammar
//! is specified by the `spec_parse_*` functions, a mathematical model of
//! the parse, and the executable parser is proved to return exactly what
//! the model says: the same tree on success and the same error otherwise.
//! Parsing is strictly sequential with no recovery: the first error aborts
//! the whole parse.

use vstd::prelude::*;

use super::ast::{AST, BinaryOp, Expr, SpecExpr, SpecStmt, Statement, UnaryOp, view_exprs,
    view_params, view_stmts};
use super::tokenizer::{SpecToken, SpecTokenKind, Token, TokenKind, view_toks};

verus! {

broadcast use vstd::std_specs::vec::group_vec_axioms;

/// What a parse error complains about.
#[derive(Debug, Clone, Copy, PartialEq, Eq, Structural)]
pub enum ParseErrorKind {
    /// The input ended where a grammar rule still needed a token.
    UnexpectedEnd,
    /// The input ended inside a call's argument list.
    UnexpectedEndInCall,
    /// The input ended inside a parameter list.
    UnexpectedEndInParams,
    /// A token that cannot begin an expression.
    ExpectedExpression,
    /// A missing closing parenthesis after a parenthesized expression.
    ExpectedClosingParen,
    /// An argument list where neither `,` nor `)` follows an argument.
    ExpectedCommaOrParenInArgs,
    /// A missing `)` after a call's arguments.
    ExpectedRParenAfterArgs,
    /// A statement rule started on the wrong keyword.
    ExpectedKeyword,
    /// A missing identifier after `let`.
    ExpectedIdentifierAfterLet,
    /// A missing `=` after the bound name of a `let`.
    ExpectedAssign,
    /// A missing function name after `func`.
    ExpectedFunctionName,
    /// A missing `(` after a function name.
    ExpectedLParenAfterName,
    /// A parameter list with something other than an identifier.
    ExpectedParameterName,
    /// A parameter list where neither `,` nor `)` follows a parameter.
    ExpectedCommaOrParenInParams,
    /// A missing `)` after a parameter list.
    ExpectedRParenAfterParams,
    /// A missing `{` after a function signature.
    ExpectedLBraceAfterSignature,
    /// A missing `}` after a function body.
    ExpectedRBraceAfterBody,
    /// A reserved statement (`get`, `set`, `delete`) with no grammar yet.
    NotImplemented,
}

/// A line/column pair.
#[derive(Debug, Clone, Copy, PartialEq, Eq, Structural)]
pub struct Position {
    pub line: usize,
    pub col: usize,
}

/// A parse error: what was expected, and the offending token's line and
/// column when one exists (`None` when parsing ran off the end).
#[derive(Debug, Clone, Copy, PartialEq, Eq, Structural)]
pub struct ParseError {
    pub kind: ParseErrorKind,
    pub at: Option<Position>,
}

/// The error raised at token index `pos`: it carries that token's position
/// when the index is in range.
pub open spec fn spec_err_at(toks: Seq<SpecToken>, pos: int, kind: ParseErrorKind) -> ParseError {
    if 0 <= pos < toks.len() {
        ParseError {
            kind,
            at: Option::Some(
                Position { line: toks[pos].line as usize, col: toks[pos].col as usize },
            ),
        }
    } else {
        ParseError { kind, at: Option::None }
    }
}

/// A continuation position for the model's recursion: a sub-rule's returned
/// position when it made progress and stayed in range, and the next index
/// otherwise. The executable parser always makes progress, so the fallback
/// never describes a run; it only keeps the model well-founded.
pub open spec fn step_pos(pos: int, next: int, len: int) -> int {
    if pos < next <= len {
        next
    } else {
        pos + 1
    }
}

/// As `step_pos`, at a boundary where the rule may also stand still.
pub open spec fn hold_pos(pos: int, next: int, len: int) -> int {
    if pos <= next <= len {
        next
    } else {
        pos
    }
}

/// The comparison operator a token spells, if any.
pub open spec fn cmp_op_of(k: SpecTokenKind) -> Option<BinaryOp> {
    match k {
        SpecTokenKind::Eq => Option::Some(BinaryOp::Eq),
        SpecTokenKind::Neq => Option::Some(BinaryOp::Neq),
        SpecTokenKind::Gt => Option::Some(BinaryOp::Gt),
        SpecTokenKind::Lt => Option::Some(BinaryOp::Lt),
        SpecTokenKind::Gte => Option::Some(BinaryOp::Gte),
        SpecTokenKind::Lte => Option::Some(BinaryOp::Lte),
        _ => Option::None,
    }
}

/// The additive operator a token spells, if any.
pub open spec fn add_op_of(k: SpecTokenKind) -> Option<BinaryOp> {
    match k {
        SpecTokenKind::Plus => Option::Some(BinaryOp::Add),
        SpecTokenKind::Minus => Option::Some(BinaryOp::Sub),
        _ => Option::None,
    }
}

/// The multiplicative operator a token spells, if any.
pub open spec fn mul_op_of(k: SpecTokenKind) -> Option<BinaryOp> {
    match k {
        SpecTokenKind::Multiply => Option::Some(BinaryOp::Mul),
        SpecTokenKind::Divide => Option::Some(BinaryOp::Div),
        _ => Option::None,
    }
}

// ---------------------------------------------------------------------------
// The model of the expression grammar
// ---------------------------------------------------------------------------

pub open spec fn spec_parse_expression(toks: Seq<SpecToken>, pos: int) -> Result<
    (SpecExpr, int),
    ParseError,
>
    decreases toks.len() - pos, 13int,
{
    spec_parse_or(toks, pos)
}

pub open spec fn spec_parse_or(toks: Seq<SpecToken>, pos: int) -> Result<
    (SpecExpr, int),
    ParseError,
>
    decreases toks.len() - pos, 12int,
{
    match spec_parse_and(toks, pos) {
        Result::Ok((left, p)) => spec_or_rest(toks, left, hold_pos(pos, p, toks.len() as int)),
        Result::Err(e) => Result::Err(e),
    }
}

pub open spec fn spec_or_rest(toks: Seq<SpecToken>, left: SpecExpr, pos: int) -> Result<
    (SpecExpr, int),
    ParseError,
>
    decreases toks.len() - pos, 11int,
{
    if pos < toks.len() && toks[pos].kind is Or {
        match spec_parse_and(toks, pos + 1) {
            Result::Ok((right, p2)) => spec_or_rest(
                toks,
                SpecExpr::Binary { left: Box::new(left), op: BinaryOp::Or, right: Box::new(right) },
                step_pos(pos, p2, toks.len() as int),
            ),
            Result::Err(e) => Result::Err(e),
        }
    } else {
        Result::Ok((left, pos))
    }
}

pub open spec fn spec_parse_and(toks: Seq<SpecToken>, pos: int) -> Result<
    (SpecExpr, int),
    ParseError,
>
    decreases toks.len() - pos, 10int,
{
    match spec_parse_comparison(toks, pos) {
        Result::Ok((left, p)) => spec_and_rest(toks, left, hold_pos(pos, p, toks.len() as int)),
        Result::Err(e) => Result::Err(e),
    }
}

pub open spec fn spec_and_rest(toks: Seq<SpecToken>, left: SpecExpr, pos: int) -> Result<
    (SpecExpr, int),
    ParseError,
>
    decreases toks.len() - pos, 9int,
{
    if pos < toks.len() && toks[pos].kind is And {
        match spec_parse_comparison(toks, pos + 1) {
            Result::Ok((right, p2)) => spec_and_rest(
                toks,
                SpecExpr::Binary {
                    left: Box::new(left),
                    op: BinaryOp::And,
                    right: Box::new(right),
                },
                step_pos(pos, p2, toks.len() as int),
            ),
            Result::Err(e) => Result::Err(e),
        }
    } else {
        Result::Ok((left, pos))
    }
}

pub open spec fn spec_parse_comparison(toks: Seq<SpecToken>, pos: int) -> Result<
    (SpecExpr, int),
    ParseError,
>
    decreases toks.len() - pos, 8int,
{
    match spec_parse_additive(toks, pos) {
        Result::Ok((left, p)) => spec_cmp_rest(toks, left, hold_pos(pos, p, toks.len() as int)),
        Result::Err(e) => Result::Err(e),
    }
}

pub open spec fn spec_cmp_rest(toks: Seq<SpecToken>, left: SpecExpr, pos: int) -> Result<
    (SpecExpr, int),
    ParseError,
>
    decreases toks.len() - pos, 7int,
{
    if pos < toks.len() && cmp_op_of(toks[pos].kind) is Some {
        let op = cmp_op_of(toks[pos].kind).unwrap();
        match spec_parse_additive(toks, pos + 1) {
            Result::Ok((right, p2)) => spec_cmp_rest(
                toks,
                SpecExpr::Binary { left: Box::new(left), op, right: Box::new(right) },
                step_pos(pos, p2, toks.len() as int),
            ),
            Result::Err(e) => Result::Err(e),
        }
    } else {
        Result::Ok((left, pos))
    }
}

pub open spec fn spec_parse_additive(toks: Seq<SpecToken>, pos: int) -> Result<
    (SpecExpr, int),
    ParseError,
>
    decreases toks.len() - pos, 6int,
{
    match spec_parse_multiplicative(toks, pos) {
        Result::Ok((left, p)) => spec_add_rest(toks, left, hold_pos(pos, p, toks.len() as int)),
        Result::Err(e) => Result::Err(e),
    }
}

pub open spec fn spec_add_rest(toks: Seq<SpecToken>, left: SpecExpr, pos: int) -> Result<
    (SpecExpr, int),
    ParseError,
>
    decreases toks.len() - pos, 5int,
{
    if pos < toks.len() && add_op_of(toks[pos].kind) is Some {
        let op = add_op_of(toks[pos].kind).unwrap();
        match spec_parse_multiplicative(toks, pos + 1) {
            Result::Ok((right, p2)) => spec_add_rest(
                toks,
                SpecExpr::Binary { left: Box::new(left), op, right: Box::new(right) },
                step_pos(pos, p2, toks.len() as int),
            ),
            Result::Err(e) => Result::Err(e),
        }
    } else {
        Result::Ok((left, pos))
    }
}

pub open spec fn spec_parse_multiplicative(toks: Seq<SpecToken>, pos: int) -> Result<
    (SpecExpr, int),
    ParseError,
>
    decreases toks.len() - pos, 4int,
{
    match spec_parse_unary(toks, pos) {
        Result::Ok((left, p)) => spec_mul_rest(toks, left, hold_pos(pos, p, toks.len() as int)),
        Result::Err(e) => Result::Err(e),
    }
}

pub open spec fn spec_mul_rest(toks: Seq<SpecToken>, left: SpecExpr, pos: int) -> Result<
    (SpecExpr, int),
    ParseError,
>
    decreases toks.len() - pos, 3int,
{
    if pos < toks.len() && mul_op_of(toks[pos].kind) is Some {
        let op = mul_op_of(toks[pos].kind).unwrap();
        match spec_parse_unary(toks, pos + 1) {
            Result::Ok((right, p2)) => spec_mul_rest(
                toks,
                SpecExpr::Binary { left: Box::new(left), op, right: Box::new(right) },
                step_pos(pos, p2, toks.len() as int),
            ),
            Result::Err(e) => Result::Err(e),
        }
    } else {
        Result::Ok((left, pos))
    }
}

pub open spec fn spec_parse_unary(toks: Seq<SpecToken>, pos: int) -> Result<
    (SpecExpr, int),
    ParseError,
>
    decreases toks.len() - pos, 2int,
{
    if pos >= toks.len() {
        Result::Err(ParseError { kind: ParseErrorKind::UnexpectedEnd, at: Option::None })
    } else if toks[pos].kind is Minus {
        match spec_parse_unary(toks, pos + 1) {
            Result::Ok((operand, p)) => Result::Ok(
                (SpecExpr::Unary { op: UnaryOp::Neg, operand: Box::new(operand) }, p),
            ),
            Result::Err(e) => Result::Err(e),
        }
    } else {
        spec_parse_primary(toks, pos)
    }
}

pub open spec fn spec_parse_primary(toks: Seq<SpecToken>, pos: int) -> Result<
    (SpecExpr, int),
    ParseError,
>
    decreases toks.len() - pos, 1int,
{
    let len = toks.len() as int;
    if pos < 0 || pos >= len {
        Result::Err(ParseError { kind: ParseErrorKind::UnexpectedEnd, at: Option::None })
    } else {
        match toks[pos].kind {
            SpecTokenKind::Number(n) => Result::Ok((SpecExpr::Number(n), pos + 1)),
            SpecTokenKind::StrLit(s) => Result::Ok((SpecExpr::StrLit(s), pos + 1)),
            SpecTokenKind::Boolean(b) => Result::Ok((SpecExpr::Boolean(b), pos + 1)),
            SpecTokenKind::Identifier(name) => {
                if pos + 1 < len && toks[pos + 1].kind is LParen {
                    let p = pos + 2;
                    if p < len && !(toks[p].kind is RParen) {
                        match spec_parse_args(toks, p) {
                            Result::Ok((args, p2)) => {
                                if p2 < len && toks[p2].kind is RParen {
                                    Result::Ok((SpecExpr::Call { name, args }, p2 + 1))
                                } else {
                                    Result::Err(
                                        spec_err_at(
                                            toks,
                                            p2,
                                            ParseErrorKind::ExpectedRParenAfterArgs,
                                        ),
                                    )
                                }
                            },
                            Result::Err(e) => Result::Err(e),
                        }
                    } else {
                        if p < len && toks[p].kind is RParen {
                            Result::Ok((SpecExpr::Call { name, args: Seq::empty() }, p + 1))
                        } else {
                            Result::Err(
                                spec_err_at(toks, p, ParseErrorKind::ExpectedRParenAfterArgs),
                            )
                        }
                    }
                } else {
                    Result::Ok((SpecExpr::Identifier(name), pos + 1))
                }
            },
            SpecTokenKind::LParen => {
                match spec_parse_expression(toks, pos + 1) {
                    Result::Ok((e, p2)) => {
                        if p2 < len && toks[p2].kind is RParen {
                            Result::Ok((e, p2 + 1))
                        } else {
                            Result::Err(spec_err_at(toks, p2, ParseErrorKind::ExpectedClosingParen))
                        }
                    },
                    Result::Err(e) => Result::Err(e),
                }
            },
            _ => Result::Err(spec_err_at(toks, pos, ParseErrorKind::ExpectedExpression)),
        }
    }
}

/// A non-empty, comma-separated argument list, stopped by `)`.
pub open spec fn spec_parse_args(toks: Seq<SpecToken>, pos: int) -> Result<
    (Seq<SpecExpr>, int),
    ParseError,
>
    decreases toks.len() - pos, 18int,
{
    let len = toks.len() as int;
    match spec_parse_expression(toks, pos) {
        Result::Ok((arg, p)) => {
            let p2 = hold_pos(pos, p, len);
            if p2 >= len {
                Result::Err(ParseError { kind: ParseErrorKind::UnexpectedEndInCall, at: Option::None })
            } else if toks[p2].kind is Comma {
                match spec_parse_args(toks, p2 + 1) {
                    Result::Ok((rest, p3)) => Result::Ok((seq![arg] + rest, p3)),
                    Result::Err(e) => Result::Err(e),
                }
            } else if toks[p2].kind is RParen {
                Result::Ok((seq![arg], p2))
            } else {
                Result::Err(spec_err_at(toks, p2, ParseErrorKind::ExpectedCommaOrParenInArgs))
            }
        },
        Result::Err(e) => Result::Err(e),
    }
}

// ---------------------------------------------------------------------------
// The model of the statement grammar
// ---------------------------------------------------------------------------

/// Skipping one optional trailing semicolon.
pub open spec fn skip_semicolon(toks: Seq<SpecToken>, pos: int) -> int {
    if 0 <= pos < toks.len() && toks[pos].kind is Semicolon {
        pos + 1
    } else {
        pos
    }
}

pub open spec fn spec_parse_statement(toks: Seq<SpecToken>, pos: int) -> Result<
    (SpecStmt, int),
    ParseError,
>
    decreases toks.len() - pos, 17int,
{
    let len = toks.len() as int;
    if pos < 0 || pos >= len {
        Result::Err(ParseError { kind: ParseErrorKind::UnexpectedEnd, at: Option::None })
    } else {
        match toks[pos].kind {
            SpecTokenKind::KwFunc => spec_parse_func(toks, pos),
            SpecTokenKind::KwGet => Result::Err(
                spec_err_at(toks, pos, ParseErrorKind::NotImplemented),
            ),
            SpecTokenKind::KwSet => Result::Err(
                spec_err_at(toks, pos, ParseErrorKind::NotImplemented),
            ),
            SpecTokenKind::KwDelete => Result::Err(
                spec_err_at(toks, pos, ParseErrorKind::NotImplemented),
            ),
            SpecTokenKind::KwWhere => spec_parse_where(toks, pos),
            SpecTokenKind::KwLet => spec_parse_let(toks, pos),
            _ => match spec_parse_expression(toks, pos) {
                Result::Ok((e, p)) => Result::Ok(
                    (SpecStmt::Expr(e), skip_semicolon(toks, p)),
                ),
                Result::Err(e) => Result::Err(e),
            },
        }
    }
}

pub open spec fn spec_parse_where(toks: Seq<SpecToken>, pos: int) -> Result<
    (SpecStmt, int),
    ParseError,
>
    decreases toks.len() - pos, 14int,
{
    let len = toks.len() as int;
    if pos < 0 || pos >= len {
        Result::Err(ParseError { kind: ParseErrorKind::UnexpectedEnd, at: Option::None })
    } else if !(toks[pos].kind is KwWhere) {
        Result::Err(spec_err_at(toks, pos, ParseErrorKind::ExpectedKeyword))
    } else {
        match spec_parse_expression(toks, pos + 1) {
            Result::Ok((condition, p)) => Result::Ok(
                (SpecStmt::Where { condition }, skip_semicolon(toks, p)),
            ),
            Result::Err(e) => Result::Err(e),
        }
    }
}

pub open spec fn spec_parse_let(toks: Seq<SpecToken>, pos: int) -> Result<
    (SpecStmt, int),
    ParseError,
>
    decreases toks.len() - pos, 15int,
{
    let len = toks.len() as int;
    if pos < 0 || pos >= len {
        Result::Err(ParseError { kind: ParseErrorKind::UnexpectedEnd, at: Option::None })
    } else if !(toks[pos].kind is KwLet) {
        Result::Err(spec_err_at(toks, pos, ParseErrorKind::ExpectedKeyword))
    } else if pos + 1 >= len {
        Result::Err(ParseError { kind: ParseErrorKind::UnexpectedEnd, at: Option::None })
    } else {
        match toks[pos + 1].kind {
            SpecTokenKind::Identifier(name) => {
                let p2 = pos + 2;
                if p2 >= len || !(toks[p2].kind is Assign) {
                    Result::Err(spec_err_at(toks, p2, ParseErrorKind::ExpectedAssign))
                } else {
                    match spec_parse_expression(toks, p2 + 1) {
                        Result::Ok((value, p3)) => Result::Ok(
                            (SpecStmt::Let { name, value }, skip_semicolon(toks, p3)),
                        ),
                        Result::Err(e) => Result::Err(e),
                    }
                }
            },
            _ => Result::Err(
                spec_err_at(toks, pos + 1, ParseErrorKind::ExpectedIdentifierAfterLet),
            ),
        }
    }
}

pub open spec fn spec_parse_func(toks: Seq<SpecToken>, pos: int) -> Result<
    (SpecStmt, int),
    ParseError,
>
    decreases toks.len() - pos, 16int,
{
    let len = toks.len() as int;
    if pos < 0 || pos >= len {
        Result::Err(ParseError { kind: ParseErrorKind::UnexpectedEnd, at: Option::None })
    } else if !(toks[pos].kind is KwFunc) {
        Result::Err(spec_err_at(toks, pos, ParseErrorKind::ExpectedKeyword))
    } else if pos + 1 >= len {
        Result::Err(ParseError { kind: ParseErrorKind::UnexpectedEnd, at: Option::None })
    } else {
        match toks[pos + 1].kind {
            SpecTokenKind::Identifier(name) => {
                let p2 = pos + 2;
                if p2 >= len || !(toks[p2].kind is LParen) {
                    Result::Err(spec_err_at(toks, p2, ParseErrorKind::ExpectedLParenAfterName))
                } else {
                    let p3 = p2 + 1;
                    let params_result: Result<(Seq<Seq<char>>, int), ParseError> = if p3 < len
                        && !(toks[p3].kind is RParen) {
                        spec_parse_params(toks, p3)
                    } else {
                        Result::Ok((Seq::empty(), p3))
                    };
                    match params_result {
                        Result::Ok((params, p4r)) => {
                            let p4 = hold_pos(p3, p4r, len);
                            if p4 >= len || !(toks[p4].kind is RParen) {
                                Result::Err(
                                    spec_err_at(toks, p4, ParseErrorKind::ExpectedRParenAfterParams),
                                )
                            } else if p4 + 1 >= len || !(toks[p4 + 1].kind is LBrace) {
                                Result::Err(
                                    spec_err_at(
                                        toks,
                                        p4 + 1,
                                        ParseErrorKind::ExpectedLBraceAfterSignature,
                                    ),
                                )
                            } else {
                                match spec_parse_body(toks, p4 + 2) {
                                    Result::Ok((body, p5)) => {
                                        if p5 < len && toks[p5].kind is RBrace {
                                            Result::Ok(
                                                (
                                                    SpecStmt::FuncDef { name, params, body },
                                                    p5 + 1,
                                                ),
                                            )
                                        } else {
                                            Result::Err(
                                                spec_err_at(
                                                    toks,
                                                    p5,
                                                    ParseErrorKind::ExpectedRBraceAfterBody,
                                                ),
                                            )
                                        }
                                    },
                                    Result::Err(e) => Result::Err(e),
                                }
                            }
                        },
                        Result::Err(e) => Result::Err(e),
                    }
                }
            },
            _ => Result::Err(spec_err_at(toks, pos + 1, ParseErrorKind::ExpectedFunctionName)),
        }
    }
}

/// A non-empty, comma-separated parameter list, stopped by `)`.
pub open spec fn spec_parse_params(toks: Seq<SpecToken>, pos: int) -> Result<
    (Seq<Seq<char>>, int),
    ParseError,
>
    decreases toks.len() - pos, 1int,
{
    let len = toks.len() as int;
    if pos < 0 || pos >= len {
        Result::Err(ParseError { kind: ParseErrorKind::UnexpectedEndInParams, at: Option::None })
    } else {
        match toks[pos].kind {
            SpecTokenKind::Identifier(name) => {
                let p2 = pos + 1;
                if p2 >= len {
                    Result::Err(
                        ParseError { kind: ParseErrorKind::UnexpectedEndInParams, at: Option::None },
                    )
                } else if toks[p2].kind is Comma {
                    match spec_parse_params(toks, p2 + 1) {
                        Result::Ok((rest, p3)) => Result::Ok((seq![name] + rest, p3)),
                        Result::Err(e) => Result::Err(e),
                    }
                } else if toks[p2].kind is RParen {
                    Result::Ok((seq![name], p2))
                } else {
                    Result::Err(
                        spec_err_at(toks, p2, ParseErrorKind::ExpectedCommaOrParenInParams),
                    )
                }
            },
            _ => Result::Err(spec_err_at(toks, pos, ParseErrorKind::ExpectedParameterName)),
        }
    }
}

/// A statement list, stopped by `}` or the end of input.
pub open spec fn spec_parse_body(toks: Seq<SpecToken>, pos: int) -> Result<
    (Seq<SpecStmt>, int),
    ParseError,
>
    decreases toks.len() - pos, 19int,
{
    let len = toks.len() as int;
    if pos < 0 || pos >= len || toks[pos].kind is RBrace {
        Result::Ok((Seq::empty(), if 0 <= pos <= len { pos } else { len }))
    } else {
        match spec_parse_statement(toks, pos) {
            Result::Ok((s, p)) => {
                match spec_parse_body(toks, step_pos(pos, p, len)) {
                    Result::Ok((rest, p2)) => Result::Ok((seq![s] + rest, p2)),
                    Result::Err(e) => Result::Err(e),
                }
            },
            Result::Err(e) => Result::Err(e),
        }
    }
}

/// The whole program: statements until the end-of-input token.
pub open spec fn spec_parse_program(toks: Seq<SpecToken>, pos: int) -> Result<
    Seq<SpecStmt>,
    ParseError,
>
    decreases toks.len() - pos, 20int,
{
    let len = toks.len() as int;
    if pos < 0 || pos >= len || toks[pos].kind is Eof {
        Result::Ok(Seq::empty())
    } else {
        match spec_parse_statement(toks, pos) {
            Result::Ok((s, p)) => {
                match spec_parse_program(toks, step_pos(pos, p, len)) {
                    Result::Ok(rest) => Result::Ok(seq![s] + rest),
                    Result::Err(e) => Result::Err(e),
                }
            },
            Result::Err(e) => Result::Err(e),
        }
    }
}

/// The model of the whole parse.
pub open spec fn spec_parse(toks: Seq<SpecToken>) -> Result<Seq<SpecStmt>, ParseError> {
    spec_parse_program(toks, 0)
}

// ---------------------------------------------------------------------------
// The executable parser
// ---------------------------------------------------------------------------

/// Whether an executable expression step returns exactly what the model
/// says, and on success lands strictly past its start, within the input.
pub open spec fn expr_step_matches(
    toks: Seq<SpecToken>,
    start: int,
    r: Result<(Expr, usize), ParseError>,
    s: Result<(SpecExpr, int), ParseError>,
) -> bool {
    match r {
        Result::Ok((e, p)) => s == Result::<(SpecExpr, int), ParseError>::Ok((e@, p as int))
            && start < p <= toks.len(),
        Result::Err(er) => s == Result::<(SpecExpr, int), ParseError>::Err(er),
    }
}

/// Consumes the token sequence and produces the abstract syntax tree.
pub struct Parser {
    pub tokens: Vec<Token>,
    pub current: usize,
}

impl Parser {
    /// Takes ownership of the whole token sequence.
    pub fn new(tokens: Vec<Token>) -> (p: Parser)
        ensures
            p.tokens@ == tokens@,
            p.current == 0,
    {
        Parser { tokens, current: 0 }
    }

    /// The model of this parser's input.
    pub open spec fn toks(&self) -> Seq<SpecToken> {
        view_toks(self.tokens@)
    }

    /// The error raised at token index `pos`, carrying that token's position
    /// when the index is in range.
    fn error_at(&self, pos: usize, kind: ParseErrorKind) -> (e: ParseError)
        ensures
            e == spec_err_at(self.toks(), pos as int, kind),
    {
        if pos < self.tokens.len() {
            ParseError {
                kind,
                at: Option::Some(
                    Position { line: self.tokens[pos].line, col: self.tokens[pos].col },
                ),
            }
        } else {
            ParseError { kind, at: Option::None }
        }
    }

    /// Parses one expression: the lowest-precedence rule.
    #[verifier::rlimit(100)]
    #[verifier::spinoff_prover]
    pub fn parse_expression(&self, start: usize) -> (r: Result<(Expr, usize), ParseError>)
        ensures
            expr_step_matches(self.toks(), start as int, r, spec_parse_expression(
                self.toks(),
                start as int,
            )),
        decreases self.tokens@.len() - start, 13int,
    {
        self.parse_logical_or(start)
    }

    #[verifier::rlimit(100)]
    #[verifier::spinoff_prover]
    fn parse_logical_or(&self, start: usize) -> (r: Result<(Expr, usize), ParseError>)
        ensures
            expr_step_matches(self.toks(), start as int, r, spec_parse_or(
                self.toks(),
                start as int,
            )),
        decreases self.tokens@.len() - start, 12int,
    {
        let (mut left, mut pos) = match self.parse_logical_and(start) {
            Result::Ok(v) => v,
            Result::Err(e) => {
                return Result::Err(e);
            },
        };
        loop
            invariant
                start < pos <= self.tokens@.len(),
                spec_parse_or(self.toks(), start as int) == spec_or_rest(
                    self.toks(),
                    left@,
                    pos as int,
                ),
            ensures
                start < pos <= self.tokens@.len(),
                spec_parse_or(self.toks(), start as int) == Result::<
                    (SpecExpr, int),
                    ParseError,
                >::Ok((left@, pos as int)),
            decreases self.tokens@.len() - pos,
        {
            if pos < self.tokens.len() && matches!(self.tokens[pos].kind, TokenKind::Or) {
                match self.parse_logical_and(pos + 1) {
                    Result::Ok((right, p2)) => {
                        left = Expr::Binary {
                            left: Box::new(left),
                            op: BinaryOp::Or,
                            right: Box::new(right),
                        };
                        pos = p2;
                    },
                    Result::Err(e) => {
                        return Result::Err(e);
                    },
                }
            } else {
                break;
            }
        }
        Result::Ok((left, pos))
    }

    #[verifier::rlimit(100)]
    #[verifier::spinoff_prover]
    fn parse_logical_and(&self, start: usize) -> (r: Result<(Expr, usize), ParseError>)
        ensures
            expr_step_matches(self.toks(), start as int, r, spec_parse_and(
                self.toks(),
                start as int,
            )),
        decreases self.tokens@.len() - start, 10int,
    {
        let (mut left, mut pos) = match self.parse_comparison(start) {
            Result::Ok(v) => v,
            Result::Err(e) => {
                return Result::Err(e);
            },
        };
        loop
            invariant
                start < pos <= self.tokens@.len(),
                spec_parse_and(self.toks(), start as int) == spec_and_rest(
                    self.toks(),
                    left@,
                    pos as int,
                ),
            ensures
                start < pos <= self.tokens@.len(),
                spec_parse_and(self.toks(), start as int) == Result::<
                    (SpecExpr, int),
                    ParseError,
                >::Ok((left@, pos as int)),
            decreases self.tokens@.len() - pos,
        {
            if pos < self.tokens.len() && matches!(self.tokens[pos].kind, TokenKind::And) {
                match self.parse_comparison(pos + 1) {
                    Result::Ok((right, p2)) => {
                        left = Expr::Binary {
                            left: Box::new(left),
                            op: BinaryOp::And,
                            right: Box::new(right),
                        };
                        pos = p2;
                    },
                    Result::Err(e) => {
                        return Result::Err(e);
                    },
                }
            } else {
                break;
            }
        }
        Result::Ok((left, pos))
    }

    /// The comparison operator at `pos`, if any.
    fn cmp_op_at(&self, pos: usize) -> (r: Option<BinaryOp>)
        requires
            pos < self.tokens@.len(),
        ensures
            r == cmp_op_of(self.toks()[pos as int].kind),
    {
        match self.tokens[pos].kind {
            TokenKind::Eq => Option::Some(BinaryOp::Eq),
            TokenKind::Neq => Option::Some(BinaryOp::Neq),
            TokenKind::Gt => Option::Some(BinaryOp::Gt),
            TokenKind::Lt => Option::Some(BinaryOp::Lt),
            TokenKind::Gte => Option::Some(BinaryOp::Gte),
            TokenKind::Lte => Option::Some(BinaryOp::Lte),
            _ => Option::None,
        }
    }

    /// The additive operator at `pos`, if any.
    fn add_op_at(&self, pos: usize) -> (r: Option<BinaryOp>)
        requires
            pos < self.tokens@.len(),
        ensures
            r == add_op_of(self.toks()[pos as int].kind),
    {
        match self.tokens[pos].kind {
            TokenKind::Plus => Option::Some(BinaryOp::Add),
            TokenKind::Minus => Option::Some(BinaryOp::Sub),
            _ => Option::None,
        }
    }

    /// The multiplicative operator at `pos`, if any.
    fn mul_op_at(&self, pos: usize) -> (r: Option<BinaryOp>)
        requires
            pos < self.tokens@.len(),
        ensures
            r == mul_op_of(self.toks()[pos as int].kind),
    {
        match self.tokens[pos].kind {
            TokenKind::Multiply => Option::Some(BinaryOp::Mul),
            TokenKind::Divide => Option::Some(BinaryOp::Div),
            _ => Option::None,
        }
    }

    #[verifier::rlimit(100)]
    #[verifier::spinoff_prover]
    fn parse_comparison(&self, start: usize) -> (r: Result<(Expr, usize), ParseError>)
        ensures
            expr_step_matches(self.toks(), start as int, r, spec_parse_comparison(
                self.toks(),
                start as int,
            )),
        decreases self.tokens@.len() - start, 8int,
    {
        let (mut left, mut pos) = match self.parse_additive(start) {
            Result::Ok(v) => v,
            Result::Err(e) => {
                return Result::Err(e);
            },
        };
        loop
            invariant
                start < pos <= self.tokens@.len(),
                spec_parse_comparison(self.toks(), start as int) == spec_cmp_rest(
                    self.toks(),
                    left@,
                    pos as int,
                ),
            ensures
                start < pos <= self.tokens@.len(),
                spec_parse_comparison(self.toks(), start as int) == Result::<
                    (SpecExpr, int),
                    ParseError,
                >::Ok((left@, pos as int)),
            decreases self.tokens@.len() - pos,
        {
            if pos < self.tokens.len() {
                match self.cmp_op_at(pos) {
                    Option::Some(op) => {
                        match self.parse_additive(pos + 1) {
                            Result::Ok((right, p2)) => {
                                left = Expr::Binary {
                                    left: Box::new(left),
                                    op,
                                    right: Box::new(right),
                                };
                                pos = p2;
                            },
                            Result::Err(e) => {
                                return Result::Err(e);
                            },
                        }
                    },
                    Option::None => {
                        break;
                    },
                }
            } else {
                break;
            }
        }
        Result::Ok((left, pos))
    }

    #[verifier::rlimit(100)]
    #[verifier::spinoff_prover]
    fn parse_additive(&self, start: usize) -> (r: Result<(Expr, usize), ParseError>)
        ensures
            expr_step_matches(self.toks(), start as int, r, spec_parse_additive(
                self.toks(),
                start as int,
            )),
        decreases self.tokens@.len() - start, 6int,
    {
        let (mut left, mut pos) = match self.parse_multiplicative(start) {
            Result::Ok(v) => v,
            Result::Err(e) => {
                return Result::Err(e);
            },
        };
        loop
            invariant
                start < pos <= self.tokens@.len(),
                spec_parse_additive(self.toks(), start as int) == spec_add_rest(
                    self.toks(),
                    left@,
                    pos as int,
                ),
            ensures
                start < pos <= self.tokens@.len(),
                spec_parse_additive(self.toks(), start as int) == Result::<
                    (SpecExpr, int),
                    ParseError,
                >::Ok((left@, pos as int)),
            decreases self.tokens@.len() - pos,
        {
            if pos < self.tokens.len() {
                match self.add_op_at(pos) {
                    Option::Some(op) => {
                        match self.parse_multiplicative(pos + 1) {
                            Result::Ok((right, p2)) => {
                                left = Expr::Binary {
                                    left: Box::new(left),
                                    op,
                                    right: Box::new(right),
                                };
                                pos = p2;
                            },
                            Result::Err(e) => {
                                return Result::Err(e);
                            },
                        }
                    },
                    Option::None => {
                        break;
                    },
                }
            } else {
                break;
            }
        }
        Result::Ok((left, pos))
    }

    #[verifier::rlimit(100)]
    #[verifier::spinoff_prover]
    fn parse_multiplicative(&self, start: usize) -> (r: Result<(Expr, usize), ParseError>)
        ensures
            expr_step_matches(self.toks(), start as int, r, spec_parse_multiplicative(
                self.toks(),
                start as int,
            )),
        decreases self.tokens@.len() - start, 4int,
    {
        let (mut left, mut pos) = match self.parse_unary(start) {
            Result::Ok(v) => v,
            Result::Err(e) => {
                return Result::Err(e);
            },
        };
        loop
            invariant
                start < pos <= self.tokens@.len(),
                spec_parse_multiplicative(self.toks(), start as int) == spec_mul_rest(
                    self.toks(),
                    left@,
                    pos as int,
                ),
            ensures
                start < pos <= self.tokens@.len(),
                spec_parse_multiplicative(self.toks(), start as int) == Result::<
                    (SpecExpr, int),
                    ParseError,
                >::Ok((left@, pos as int)),
            decreases self.tokens@.len() - pos,
        {
            if pos < self.tokens.len() {
                match self.mul_op_at(pos) {
                    Option::Some(op) => {
                        match self.parse_unary(pos + 1) {
                            Result::Ok((right, p2)) => {
                                left = Expr::Binary {
                                    left: Box::new(left),
                                    op,
                                    right: Box::new(right),
                                };
                                pos = p2;
                            },
                            Result::Err(e) => {
                                return Result::Err(e);
                            },
                        }
                    },
                    Option::None => {
                        break;
                    },
                }
            } else {
                break;
            }
        }
        Result::Ok((left, pos))
    }

    #[verifier::rlimit(100)]
    #[verifier::spinoff_prover]
    fn parse_unary(&self, start: usize) -> (r: Result<(Expr, usize), ParseError>)
        ensures
            expr_step_matches(self.toks(), start as int, r, spec_parse_unary(
                self.toks(),
                start as int,
            )),
        decreases self.tokens@.len() - start, 2int,
    {
        if start >= self.tokens.len() {
            return Result::Err(ParseError { kind: ParseErrorKind::UnexpectedEnd, at: Option::None });
        }
        if matches!(self.tokens[start].kind, TokenKind::Minus) {
            match self.parse_unary(start + 1) {
                Result::Ok((operand, pos)) => Result::Ok(
                    (Expr::Unary { op: UnaryOp::Neg, operand: Box::new(operand) }, pos),
                ),
                Result::Err(e) => Result::Err(e),
            }
        } else {
            self.parse_primitive_expr(start)
        }
    }

    /// Parses a primary expression: a literal, an identifier, a call, or a
    /// parenthesized sub-expression.
    #[verifier::rlimit(100)]
    #[verifier::spinoff_prover]
    fn parse_primitive_expr(&self, start: usize) -> (r: Result<(Expr, usize), ParseError>)
        ensures
            expr_step_matches(self.toks(), start as int, r, spec_parse_primary(
                self.toks(),
                start as int,
            )),
        decreases self.tokens@.len() - start, 1int,
    {
        if start >= self.tokens.len() {
            return Result::Err(ParseError { kind: ParseErrorKind::UnexpectedEnd, at: Option::None });
        }
        match &self.tokens[start].kind {
            TokenKind::Number(n) => Result::Ok((Expr::Number(*n), start + 1)),
            TokenKind::StrLit(s) => Result::Ok((Expr::StrLit(s.clone()), start + 1)),
            TokenKind::Boolean(b) => Result::Ok((Expr::Boolean(*b), start + 1)),
            TokenKind::Identifier(name) => {
                let name_str = name.clone();
                if start + 1 < self.tokens.len() && matches!(
                    self.tokens[start + 1].kind,
                    TokenKind::LParen,
                ) {
                    let p = start + 2;
                    if p < self.tokens.len() && !matches!(self.tokens[p].kind, TokenKind::RParen) {
                        match self.parse_args(p) {
                            Result::Ok((args, p2)) => {
                                if p2 < self.tokens.len() && matches!(
                                    self.tokens[p2].kind,
                                    TokenKind::RParen,
                                ) {
                                    Result::Ok(
                                        (Expr::Call { name: name_str, args }, p2 + 1),
                                    )
                                } else {
                                    Result::Err(
                                        self.error_at(p2, ParseErrorKind::ExpectedRParenAfterArgs),
                                    )
                                }
                            },
                            Result::Err(e) => Result::Err(e),
                        }
                    } else {
                        if p < self.tokens.len() && matches!(self.tokens[p].kind, TokenKind::RParen) {
                            proof {
                                assert(view_exprs(Seq::<Expr>::empty(), 0)
                                    =~= Seq::<SpecExpr>::empty());
                            }
                            Result::Ok(
                                (Expr::Call { name: name_str, args: Vec::new() }, p + 1),
                            )
                        } else {
                            Result::Err(
                                self.error_at(p, ParseErrorKind::ExpectedRParenAfterArgs),
                            )
                        }
                    }
                } else {
                    Result::Ok((Expr::Identifier(name_str), start + 1))
                }
            },
            TokenKind::LParen => {
                match self.parse_expression(start + 1) {
                    Result::Ok((e, p2)) => {
                        if p2 < self.tokens.len() && matches!(
                            self.tokens[p2].kind,
                            TokenKind::RParen,
                        ) {
                            Result::Ok((e, p2 + 1))
                        } else {
                            Result::Err(self.error_at(p2, ParseErrorKind::ExpectedClosingParen))
                        }
                    },
                    Result::Err(e) => Result::Err(e),
                }
            },
            _ => Result::Err(self.error_at(start, ParseErrorKind::ExpectedExpression)),
        }
    }

    /// Parses a non-empty, comma-separated argument list stopped by `)`.
    #[verifier::rlimit(100)]
    #[verifier::spinoff_prover]
    fn parse_args(&self, start: usize) -> (r: Result<(Vec<Expr>, usize), ParseError>)
        requires
            start <= self.tokens@.len(),
        ensures
            match r {
                Result::Ok((args, p)) => spec_parse_args(self.toks(), start as int) == Result::<
                    (Seq<SpecExpr>, int),
                    ParseError,
                >::Ok((view_exprs(args@, 0), p as int)) && start < p <= self.tokens@.len(),
                Result::Err(er) => spec_parse_args(self.toks(), start as int) == Result::<
                    (Seq<SpecExpr>, int),
                    ParseError,
                >::Err(er),
            },
        decreases self.tokens@.len() - start, 18int,
    {
        let mut args: Vec<Expr> = Vec::new();
        let mut pos = start;
        proof {
            assert(view_exprs(Seq::<Expr>::empty(), 0) =~= Seq::<SpecExpr>::empty());
            lemma_args_app_empty(spec_parse_args(self.toks(), start as int));
        }
        loop
            invariant
                start <= pos <= self.tokens@.len(),
                args_matches(self.toks(), start as int, view_exprs(args@, 0), pos as int),
            decreases self.tokens@.len() - pos,
        {
            let ghost prefix = view_exprs(args@, 0);
            let (arg, p2) = match self.parse_expression(pos) {
                Result::Ok(v) => v,
                Result::Err(e) => {
                    return Result::Err(e);
                },
            };
            let ghost arg_v = arg@;
            let ghost args_before = args@;
            args.push(arg);
            proof {
                super::ast::lemma_view_exprs_push(args_before, args@.last());
            }
            if p2 >= self.tokens.len() {
                return Result::Err(
                    ParseError { kind: ParseErrorKind::UnexpectedEndInCall, at: Option::None },
                );
            }
            if matches!(self.tokens[p2].kind, TokenKind::Comma) {
                proof {
                    lemma_args_app_assoc(
                        prefix,
                        arg_v,
                        spec_parse_args(self.toks(), p2 as int + 1),
                    );
                }
                pos = p2 + 1;
            } else if matches!(self.tokens[p2].kind, TokenKind::RParen) {
                return Result::Ok((args, p2));
            } else {
                return Result::Err(
                    self.error_at(p2, ParseErrorKind::ExpectedCommaOrParenInArgs),
                );
            }
        }
    }
}

/// Prepending already-parsed arguments in front of the model of the
/// remaining argument list.
pub open spec fn args_app(
    prefix: Seq<SpecExpr>,
    rest: Result<(Seq<SpecExpr>, int), ParseError>,
) -> Result<(Seq<SpecExpr>, int), ParseError> {
    match rest {
        Result::Ok((args, p)) => Result::Ok((prefix + args, p)),
        Result::Err(e) => Result::Err(e),
    }
}

/// The argument-list loop invariant: what was parsed so far, prepended to
/// the model of the remaining list, gives the model of the whole list.
pub open spec fn args_matches(
    toks: Seq<SpecToken>,
    start: int,
    prefix: Seq<SpecExpr>,
    pos: int,
) -> bool {
    spec_parse_args(toks, start) == args_app(prefix, spec_parse_args(toks, pos))
}

/// An empty prefix prepends nothing.
proof fn lemma_args_app_empty(rest: Result<(Seq<SpecExpr>, int), ParseError>)
    ensures
        args_app(Seq::empty(), rest) == rest,
{
    match rest {
        Result::Ok((args, p)) => {
            assert(Seq::<SpecExpr>::empty() + args =~= args);
        },
        Result::Err(_) => {},
    }
}

/// Prepending a prefix and then one more argument is prepending the longer
/// prefix.
proof fn lemma_args_app_assoc(
    prefix: Seq<SpecExpr>,
    arg: SpecExpr,
    rest: Result<(Seq<SpecExpr>, int), ParseError>,
)
    ensures
        args_app(prefix, args_app(seq![arg], rest)) == args_app(prefix + seq![arg], rest),
{
    match rest {
        Result::Ok((args, p)) => {
            assert(prefix + (seq![arg] + args) =~= (prefix + seq![arg]) + args);
        },
        Result::Err(_) => {},
    }
}

/// Whether an executable statement step returns exactly what the model
/// says, and on success lands strictly past its start, within the input.
pub open spec fn stmt_step_matches(
    toks: Seq<SpecToken>,
    start: int,
    r: Result<(Statement, usize), ParseError>,
    s: Result<(SpecStmt, int), ParseError>,
) -> bool {
    match r {
        Result::Ok((st, p)) => s == Result::<(SpecStmt, int), ParseError>::Ok((st@, p as int))
            && start < p <= toks.len(),
        Result::Err(er) => s == Result::<(SpecStmt, int), ParseError>::Err(er),
    }
}

/// Prepending already-parsed statements in front of the model of a
/// remaining statement list.
pub open spec fn stmts_app(
    prefix: Seq<SpecStmt>,
    rest: Result<(Seq<SpecStmt>, int), ParseError>,
) -> Result<(Seq<SpecStmt>, int), ParseError> {
    match rest {
        Result::Ok((stmts, p)) => Result::Ok((prefix + stmts, p)),
        Result::Err(e) => Result::Err(e),
    }
}

proof fn lemma_stmts_app_empty(rest: Result<(Seq<SpecStmt>, int), ParseError>)
    ensures
        stmts_app(Seq::empty(), rest) == rest,
{
    match rest {
        Result::Ok((stmts, p)) => {
            assert(Seq::<SpecStmt>::empty() + stmts =~= stmts);
        },
        Result::Err(_) => {},
    }
}

proof fn lemma_stmts_app_assoc(
    prefix: Seq<SpecStmt>,
    s0: SpecStmt,
    rest: Result<(Seq<SpecStmt>, int), ParseError>,
)
    ensures
        stmts_app(prefix, stmts_app(seq![s0], rest)) == stmts_app(prefix + seq![s0], rest),
{
    match rest {
        Result::Ok((stmts, p)) => {
            assert(prefix + (seq![s0] + stmts) =~= (prefix + seq![s0]) + stmts);
        },
        Result::Err(_) => {},
    }
}

/// Prepending already-parsed statements in front of the model of the
/// remaining program.
pub open spec fn prog_app(
    prefix: Seq<SpecStmt>,
    rest: Result<Seq<SpecStmt>, ParseError>,
) -> Result<Seq<SpecStmt>, ParseError> {
    match rest {
        Result::Ok(stmts) => Result::Ok(prefix + stmts),
        Result::Err(e) => Result::Err(e),
    }
}

proof fn lemma_prog_app_empty(rest: Result<Seq<SpecStmt>, ParseError>)
    ensures
        prog_app(Seq::empty(), rest) == rest,
{
    match rest {
        Result::Ok(stmts) => {
            assert(Seq::<SpecStmt>::empty() + stmts =~= stmts);
        },
        Result::Err(_) => {},
    }
}

proof fn lemma_prog_app_assoc(
    prefix: Seq<SpecStmt>,
    s0: SpecStmt,
    rest: Result<Seq<SpecStmt>, ParseError>,
)
    ensures
        prog_app(prefix, prog_app(seq![s0], rest)) == prog_app(prefix + seq![s0], rest),
{
    match rest {
        Result::Ok(stmts) => {
            assert(prefix + (seq![s0] + stmts) =~= (prefix + seq![s0]) + stmts);
        },
        Result::Err(_) => {},
    }
}

/// Prepending already-parsed parameter names in front of the model of the
/// remaining parameter list.
pub open spec fn params_app(
    prefix: Seq<Seq<char>>,
    rest: Result<(Seq<Seq<char>>, int), ParseError>,
) -> Result<(Seq<Seq<char>>, int), ParseError> {
    match rest {
        Result::Ok((params, p)) => Result::Ok((prefix + params, p)),
        Result::Err(e) => Result::Err(e),
    }
}

proof fn lemma_params_app_empty(rest: Result<(Seq<Seq<char>>, int), ParseError>)
    ensures
        params_app(Seq::empty(), rest) == rest,
{
    match rest {
        Result::Ok((params, p)) => {
            assert(Seq::<Seq<char>>::empty() + params =~= params);
        },
        Result::Err(_) => {},
    }
}

proof fn lemma_params_app_assoc(
    prefix: Seq<Seq<char>>,
    n0: Seq<char>,
    rest: Result<(Seq<Seq<char>>, int), ParseError>,
)
    ensures
        params_app(prefix, params_app(seq![n0], rest)) == params_app(prefix + seq![n0], rest),
{
    match rest {
        Result::Ok((params, p)) => {
            assert(prefix + (seq![n0] + params) =~= (prefix + seq![n0]) + params);
        },
        Result::Err(_) => {},
    }
}

impl Parser {
    /// Parses the whole program: statements until the end-of-input token.
    #[verifier::rlimit(100)]
    #[verifier::spinoff_prover]
    pub fn parse(self) -> (r: Result<AST, ParseError>)
        ensures
            match r {
                Result::Ok(ast) => spec_parse(self.toks()) == Result::<
                    Seq<SpecStmt>,
                    ParseError,
                >::Ok(ast@),
                Result::Err(e) => spec_parse(self.toks()) == Result::<
                    Seq<SpecStmt>,
                    ParseError,
                >::Err(e),
            },
    {
        let ghost toks = self.toks();
        let mut current: usize = 0;
        let mut statements: Vec<Statement> = Vec::new();
        proof {
            assert(view_stmts(Seq::<Statement>::empty(), 0) =~= Seq::<SpecStmt>::empty());
            lemma_prog_app_empty(spec_parse_program(toks, 0));
        }
        loop
            invariant
                current <= self.tokens@.len(),
                toks == self.toks(),
                spec_parse(toks) == prog_app(
                    view_stmts(statements@, 0),
                    spec_parse_program(toks, current as int),
                ),
            ensures
                spec_parse(toks) == Result::<Seq<SpecStmt>, ParseError>::Ok(
                    view_stmts(statements@, 0),
                ),
            decreases self.tokens@.len() - current,
        {
            if current < self.tokens.len() {
                if matches!(self.tokens[current].kind, TokenKind::Eof) {
                    proof {
                        assert(view_stmts(statements@, 0) + Seq::<SpecStmt>::empty() =~= view_stmts(
                            statements@,
                            0,
                        ));
                    }
                    break;
                }
                match self.parse_statement(current) {
                    Result::Ok((stmt, next)) => {
                        let ghost prefix = view_stmts(statements@, 0);
                        let ghost stmt_v = stmt@;
                        let ghost stmts_before = statements@;
                        statements.push(stmt);
                        proof {
                            super::ast::lemma_view_stmts_push(stmts_before, statements@.last());
                            lemma_prog_app_assoc(
                                prefix,
                                stmt_v,
                                spec_parse_program(toks, next as int),
                            );
                        }
                        current = next;
                    },
                    Result::Err(e) => {
                        return Result::Err(e);
                    },
                }
            } else {
                proof {
                    assert(view_stmts(statements@, 0) + Seq::<SpecStmt>::empty() =~= view_stmts(
                        statements@,
                        0,
                    ));
                }
                break;
            }
        }
        Result::Ok(AST { statements })
    }

    /// Parses one statement, dispatching on its first token.
    #[verifier::rlimit(100)]
    #[verifier::spinoff_prover]
    fn parse_statement(&self, pos: usize) -> (r: Result<(Statement, usize), ParseError>)
        ensures
            stmt_step_matches(self.toks(), pos as int, r, spec_parse_statement(
                self.toks(),
                pos as int,
            )),
        decreases self.tokens@.len() - pos, 17int,
    {
        if pos >= self.tokens.len() {
            return Result::Err(ParseError { kind: ParseErrorKind::UnexpectedEnd, at: Option::None });
        }
        match &self.tokens[pos].kind {
            TokenKind::KwFunc => self.func_parse(pos),
            TokenKind::KwGet => {
                match self.get_parse(pos) {
                    Result::Ok(stmt) => Result::Ok((stmt, pos + 1)),
                    Result::Err(e) => Result::Err(e),
                }
            },
            TokenKind::KwSet => {
                match self.set_parse(pos) {
                    Result::Ok(stmt) => Result::Ok((stmt, pos + 1)),
                    Result::Err(e) => Result::Err(e),
                }
            },
            TokenKind::KwDelete => {
                match self.delete_parse(pos) {
                    Result::Ok(stmt) => Result::Ok((stmt, pos + 1)),
                    Result::Err(e) => Result::Err(e),
                }
            },
            TokenKind::KwWhere => self.where_parse(pos),
            TokenKind::KwLet => self.let_parse(pos),
            _ => {
                match self.parse_expression(pos) {
                    Result::Ok((e, p)) => {
                        let p2 = self.skip_semicolon_at(p);
                        Result::Ok((Statement::Expr(e), p2))
                    },
                    Result::Err(e) => Result::Err(e),
                }
            },
        }
    }

    /// Consumes one optional trailing semicolon.
    fn skip_semicolon_at(&self, p: usize) -> (r: usize)
        requires
            p <= self.tokens@.len(),
        ensures
            r as int == skip_semicolon(self.toks(), p as int),
            p <= r <= self.tokens@.len(),
    {
        if p < self.tokens.len() && matches!(self.tokens[p].kind, TokenKind::Semicolon) {
            p + 1
        } else {
            p
        }
    }

    /// A reserved `get` statement: its grammar is not implemented.
    fn get_parse(&self, start: usize) -> (r: Result<Statement, ParseError>)
        ensures
            r == Result::<Statement, ParseError>::Err(
                spec_err_at(self.toks(), start as int, ParseErrorKind::NotImplemented),
            ),
    {
        Result::Err(self.error_at(start, ParseErrorKind::NotImplemented))
    }

    /// A reserved `set` statement: its grammar is not implemented.
    fn set_parse(&self, start: usize) -> (r: Result<Statement, ParseError>)
        ensures
            r == Result::<Statement, ParseError>::Err(
                spec_err_at(self.toks(), start as int, ParseErrorKind::NotImplemented),
            ),
    {
        Result::Err(self.error_at(start, ParseErrorKind::NotImplemented))
    }

    /// A reserved `delete` statement: its grammar is not implemented.
    fn delete_parse(&self, start: usize) -> (r: Result<Statement, ParseError>)
        ensures
            r == Result::<Statement, ParseError>::Err(
                spec_err_at(self.toks(), start as int, ParseErrorKind::NotImplemented),
            ),
    {
        Result::Err(self.error_at(start, ParseErrorKind::NotImplemented))
    }

    /// Parses `where <condition>` with an optional trailing semicolon.
    #[verifier::rlimit(100)]
    #[verifier::spinoff_prover]
    fn where_parse(&self, start: usize) -> (r: Result<(Statement, usize), ParseError>)
        ensures
            stmt_step_matches(self.toks(), start as int, r, spec_parse_where(
                self.toks(),
                start as int,
            )),
        decreases self.tokens@.len() - start, 14int,
    {
        if start >= self.tokens.len() {
            return Result::Err(ParseError { kind: ParseErrorKind::UnexpectedEnd, at: Option::None });
        }
        if !matches!(self.tokens[start].kind, TokenKind::KwWhere) {
            return Result::Err(self.error_at(start, ParseErrorKind::ExpectedKeyword));
        }
        match self.parse_expression(start + 1) {
            Result::Ok((condition, p)) => {
                let p2 = self.skip_semicolon_at(p);
                Result::Ok((Statement::Where { condition }, p2))
            },
            Result::Err(e) => Result::Err(e),
        }
    }

    /// Parses `let <name> = <expr>` with an optional trailing semicolon.
    #[verifier::rlimit(100)]
    #[verifier::spinoff_prover]
    fn let_parse(&self, start: usize) -> (r: Result<(Statement, usize), ParseError>)
        ensures
            stmt_step_matches(self.toks(), start as int, r, spec_parse_let(
                self.toks(),
                start as int,
            )),
        decreases self.tokens@.len() - start, 15int,
    {
        if start >= self.tokens.len() {
            return Result::Err(ParseError { kind: ParseErrorKind::UnexpectedEnd, at: Option::None });
        }
        if !matches!(self.tokens[start].kind, TokenKind::KwLet) {
            return Result::Err(self.error_at(start, ParseErrorKind::ExpectedKeyword));
        }
        if start + 1 >= self.tokens.len() {
            return Result::Err(ParseError { kind: ParseErrorKind::UnexpectedEnd, at: Option::None });
        }
        match &self.tokens[start + 1].kind {
            TokenKind::Identifier(n) => {
                let name = n.clone();
                let p2 = start + 2;
                if p2 >= self.tokens.len() || !matches!(self.tokens[p2].kind, TokenKind::Assign) {
                    return Result::Err(self.error_at(p2, ParseErrorKind::ExpectedAssign));
                }
                match self.parse_expression(p2 + 1) {
                    Result::Ok((value, p3)) => {
                        let p4 = self.skip_semicolon_at(p3);
                        Result::Ok((Statement::Let { name, value }, p4))
                    },
                    Result::Err(e) => Result::Err(e),
                }
            },
            _ => Result::Err(self.error_at(start + 1, ParseErrorKind::ExpectedIdentifierAfterLet)),
        }
    }

    /// Parses `func <name>(<params>) { <body> }`.
    #[verifier::rlimit(100)]
    #[verifier::spinoff_prover]
    fn func_parse(&self, start: usize) -> (r: Result<(Statement, usize), ParseError>)
        ensures
            stmt_step_matches(self.toks(), start as int, r, spec_parse_func(
                self.toks(),
                start as int,
            )),
        decreases self.tokens@.len() - start, 16int,
    {
        let ghost toks = self.toks();
        if start >= self.tokens.len() {
            return Result::Err(ParseError { kind: ParseErrorKind::UnexpectedEnd, at: Option::None });
        }
        if !matches!(self.tokens[start].kind, TokenKind::KwFunc) {
            return Result::Err(self.error_at(start, ParseErrorKind::ExpectedKeyword));
        }
        if start + 1 >= self.tokens.len() {
            return Result::Err(ParseError { kind: ParseErrorKind::UnexpectedEnd, at: Option::None });
        }
        let name = match &self.tokens[start + 1].kind {
            TokenKind::Identifier(n) => n.clone(),
            _ => {
                return Result::Err(
                    self.error_at(start + 1, ParseErrorKind::ExpectedFunctionName),
                );
            },
        };
        let p2 = start + 2;
        if p2 >= self.tokens.len() || !matches!(self.tokens[p2].kind, TokenKind::LParen) {
            return Result::Err(self.error_at(p2, ParseErrorKind::ExpectedLParenAfterName));
        }
        let p3 = p2 + 1;
        let (params, p4) = if p3 < self.tokens.len() && !matches!(
            self.tokens[p3].kind,
            TokenKind::RParen,
        ) {
            match self.parse_params(p3) {
                Result::Ok(v) => v,
                Result::Err(e) => {
                    return Result::Err(e);
                },
            }
        } else {
            proof {
                assert(view_params(Seq::<String>::empty()) =~= Seq::<Seq<char>>::empty());
            }
            (Vec::new(), p3)
        };
        if p4 >= self.tokens.len() || !matches!(self.tokens[p4].kind, TokenKind::RParen) {
            return Result::Err(self.error_at(p4, ParseErrorKind::ExpectedRParenAfterParams));
        }
        if p4 + 1 >= self.tokens.len() || !matches!(self.tokens[p4 + 1].kind, TokenKind::LBrace) {
            return Result::Err(
                self.error_at(p4 + 1, ParseErrorKind::ExpectedLBraceAfterSignature),
            );
        }
        let body_start = p4 + 2;
        let (body, pos) = match self.parse_body(body_start) {
            Result::Ok(v) => v,
            Result::Err(e) => {
                return Result::Err(e);
            },
        };
        if pos >= self.tokens.len() || !matches!(self.tokens[pos].kind, TokenKind::RBrace) {
            return Result::Err(self.error_at(pos, ParseErrorKind::ExpectedRBraceAfterBody));
        }
        Result::Ok((Statement::FuncDef { name, params, body }, pos + 1))
    }


    /// Parses a statement list, stopped by `}` or the end of input.
    #[verifier::rlimit(100)]
    #[verifier::spinoff_prover]
    fn parse_body(&self, body_start: usize) -> (r: Result<(Vec<Statement>, usize), ParseError>)
        requires
            body_start <= self.tokens@.len(),
        ensures
            match r {
                Result::Ok((body, p)) => spec_parse_body(self.toks(), body_start as int)
                    == Result::<(Seq<SpecStmt>, int), ParseError>::Ok(
                    (view_stmts(body@, 0), p as int),
                ) && body_start <= p <= self.tokens@.len(),
                Result::Err(er) => spec_parse_body(self.toks(), body_start as int) == Result::<
                    (Seq<SpecStmt>, int),
                    ParseError,
                >::Err(er),
            },
        decreases self.tokens@.len() - body_start, 19int,
    {
        let ghost toks = self.toks();
        let mut body: Vec<Statement> = Vec::new();
        let mut pos = body_start;
        proof {
            assert(view_stmts(Seq::<Statement>::empty(), 0) =~= Seq::<SpecStmt>::empty());
            lemma_stmts_app_empty(spec_parse_body(toks, body_start as int));
        }
        loop
            invariant
                body_start <= pos <= self.tokens@.len(),
                toks == self.toks(),
                spec_parse_body(toks, body_start as int) == stmts_app(
                    view_stmts(body@, 0),
                    spec_parse_body(toks, pos as int),
                ),
            ensures
                body_start <= pos <= self.tokens@.len(),
                spec_parse_body(toks, body_start as int) == Result::<
                    (Seq<SpecStmt>, int),
                    ParseError,
                >::Ok((view_stmts(body@, 0), pos as int)),
            decreases self.tokens@.len() - pos,
        {
            if pos < self.tokens.len() && !matches!(self.tokens[pos].kind, TokenKind::RBrace) {
                match self.parse_statement(pos) {
                    Result::Ok((stmt, next)) => {
                        let ghost prefix = view_stmts(body@, 0);
                        let ghost stmt_v = stmt@;
                        let ghost body_before = body@;
                        body.push(stmt);
                        proof {
                            super::ast::lemma_view_stmts_push(body_before, body@.last());
                            lemma_stmts_app_assoc(
                                prefix,
                                stmt_v,
                                spec_parse_body(toks, next as int),
                            );
                        }
                        pos = next;
                    },
                    Result::Err(e) => {
                        return Result::Err(e);
                    },
                }
            } else {
                proof {
                    assert(view_stmts(body@, 0) + Seq::<SpecStmt>::empty() =~= view_stmts(
                        body@,
                        0,
                    ));
                }
                break;
            }
        }
        Result::Ok((body, pos))
    }

    /// Parses a non-empty, comma-separated parameter list stopped by `)`.
    #[verifier::rlimit(100)]
    #[verifier::spinoff_prover]
    fn parse_params(&self, start: usize) -> (r: Result<(Vec<String>, usize), ParseError>)
        requires
            start <= self.tokens@.len(),
        ensures
            match r {
                Result::Ok((params, p)) => spec_parse_params(self.toks(), start as int)
                    == Result::<(Seq<Seq<char>>, int), ParseError>::Ok(
                    (view_params(params@), p as int),
                ) && start < p <= self.tokens@.len(),
                Result::Err(er) => spec_parse_params(self.toks(), start as int) == Result::<
                    (Seq<Seq<char>>, int),
                    ParseError,
                >::Err(er),
            },
        decreases self.tokens@.len() - start, 1int,
    {
        let ghost toks = self.toks();
        let mut params: Vec<String> = Vec::new();
        let mut pos = start;
        proof {
            assert(view_params(Seq::<String>::empty()) =~= Seq::<Seq<char>>::empty());
            lemma_params_app_empty(spec_parse_params(toks, start as int));
        }
        loop
            invariant
                start <= pos <= self.tokens@.len(),
                toks == self.toks(),
                spec_parse_params(toks, start as int) == params_app(
                    view_params(params@),
                    spec_parse_params(toks, pos as int),
                ),
            decreases self.tokens@.len() - pos,
        {
            if pos >= self.tokens.len() {
                return Result::Err(
                    ParseError { kind: ParseErrorKind::UnexpectedEndInParams, at: Option::None },
                );
            }
            let name = match &self.tokens[pos].kind {
                TokenKind::Identifier(n) => n.clone(),
                _ => {
                    return Result::Err(
                        self.error_at(pos, ParseErrorKind::ExpectedParameterName),
                    );
                },
            };
            let ghost name_v = name@;
            let ghost params_before = params@;
            params.push(name);
            proof {
                super::ast::lemma_view_params_push(params_before, params@.last());
            }
            let p2 = pos + 1;
            if p2 >= self.tokens.len() {
                return Result::Err(
                    ParseError { kind: ParseErrorKind::UnexpectedEndInParams, at: Option::None },
                );
            }
            if matches!(self.tokens[p2].kind, TokenKind::Comma) {
                proof {
                    lemma_params_app_assoc(
                        view_params(params_before),
                        name_v,
                        spec_parse_params(toks, p2 as int + 1),
                    );
                }
                pos = p2 + 1;
            } else if matches!(self.tokens[p2].kind, TokenKind::RParen) {
                return Result::Ok((params, p2));
            } else {
                return Result::Err(
                    self.error_at(p2, ParseErrorKind::ExpectedCommaOrParenInParams),
                );
            }
        }
    }
}

} // verus!
