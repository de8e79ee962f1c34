//! Lexical scanning: source bytes to a token sequence with line/column
//! positions.
//!
//! The scanner works byte by byte. Multi-byte UTF-8 is legal only inside
//! string literals and identifiers, where it is validated on extraction.
//! `line` starts at 1 and increments on a newline; `col` starts at 1, resets
//! on a newline, advances by the consumed byte count per token, and by 4 for
//! a tab. A carriage return is skipped silently.
//!
//! Numbers are 64-bit signed integers. The scanner accumulates digits and
//! dots into one literal; a literal that contains a dot or exceeds the
//! 64-bit signed range is rejected as an invalid number.
//!
//! The whole scan is specified by `spec_tokenize`, a mathematical model of
//! the token sequence, and `Tokenizer::tokenize` is proved to return exactly
//! that sequence.

use vstd::prelude::*;
use vstd::utf8::{decode_utf8, valid_utf8};

verus! {

broadcast use vstd::std_specs::vec::group_vec_axioms;

/// Why a scan failed.
#[derive(Debug, Clone, Copy, PartialEq, Eq, Structural)]
pub enum LexError {
    /// A byte outside every supported character class.
    UnexpectedChar(u8),
    /// A `!` not followed by `=`.
    MalformedNot,
    /// A numeric literal holding a dot or exceeding the 64-bit signed range.
    InvalidNumber,
    /// A string literal with no closing quote.
    UnterminatedString,
    /// A block comment with no closing `*/`.
    UnterminatedComment,
    /// A string literal or identifier whose bytes are not valid UTF-8.
    InvalidUtf8,
}

/// The classification of one token. Tokens own any string data they carry;
/// no token aliases source text.
#[derive(Debug, PartialEq)]
pub enum TokenKind {
    KwGet,
    KwSet,
    KwWhere,
    KwDelete,
    KwFunc,
    KwLet,
    Plus,
    Minus,
    Multiply,
    Divide,
    Assign,
    LParen,
    RParen,
    LBrace,
    RBrace,
    LBracket,
    RBracket,
    Dot,
    Semicolon,
    Comma,
    Eq,
    Neq,
    Gt,
    Lt,
    Gte,
    Lte,
    And,
    Or,
    Identifier(String),
    Number(i64),
    StrLit(String),
    Boolean(bool),
    Eof,
}

/// The model of a token kind: owned strings become character sequences.
#[verifier::ext_equal]
pub enum SpecTokenKind {
    KwGet,
    KwSet,
    KwWhere,
    KwDelete,
    KwFunc,
    KwLet,
    Plus,
    Minus,
    Multiply,
    Divide,
    Assign,
    LParen,
    RParen,
    LBrace,
    RBrace,
    LBracket,
    RBracket,
    Dot,
    Semicolon,
    Comma,
    Eq,
    Neq,
    Gt,
    Lt,
    Gte,
    Lte,
    And,
    Or,
    Identifier(Seq<char>),
    Number(i64),
    StrLit(Seq<char>),
    Boolean(bool),
    Eof,
}

/// One classified lexical unit with its source position.
#[derive(Debug, PartialEq)]
pub struct Token {
    pub kind: TokenKind,
    pub line: usize,
    pub col: usize,
}

/// The model of a token.
#[verifier::ext_equal]
pub struct SpecToken {
    pub kind: SpecTokenKind,
    pub line: int,
    pub col: int,
}

impl View for TokenKind {
    type V = SpecTokenKind;

    open spec fn view(&self) -> SpecTokenKind {
        match *self {
            TokenKind::KwGet => SpecTokenKind::KwGet,
            TokenKind::KwSet => SpecTokenKind::KwSet,
            TokenKind::KwWhere => SpecTokenKind::KwWhere,
            TokenKind::KwDelete => SpecTokenKind::KwDelete,
            TokenKind::KwFunc => SpecTokenKind::KwFunc,
            TokenKind::KwLet => SpecTokenKind::KwLet,
            TokenKind::Plus => SpecTokenKind::Plus,
            TokenKind::Minus => SpecTokenKind::Minus,
            TokenKind::Multiply => SpecTokenKind::Multiply,
            TokenKind::Divide => SpecTokenKind::Divide,
            TokenKind::Assign => SpecTokenKind::Assign,
            TokenKind::LParen => SpecTokenKind::LParen,
            TokenKind::RParen => SpecTokenKind::RParen,
            TokenKind::LBrace => SpecTokenKind::LBrace,
            TokenKind::RBrace => SpecTokenKind::RBrace,
            TokenKind::LBracket => SpecTokenKind::LBracket,
            TokenKind::RBracket => SpecTokenKind::RBracket,
            TokenKind::Dot => SpecTokenKind::Dot,
            TokenKind::Semicolon => SpecTokenKind::Semicolon,
            TokenKind::Comma => SpecTokenKind::Comma,
            TokenKind::Eq => SpecTokenKind::Eq,
            TokenKind::Neq => SpecTokenKind::Neq,
            TokenKind::Gt => SpecTokenKind::Gt,
            TokenKind::Lt => SpecTokenKind::Lt,
            TokenKind::Gte => SpecTokenKind::Gte,
            TokenKind::Lte => SpecTokenKind::Lte,
            TokenKind::And => SpecTokenKind::And,
            TokenKind::Or => SpecTokenKind::Or,
            TokenKind::Identifier(ref s) => SpecTokenKind::Identifier(s@),
            TokenKind::Number(n) => SpecTokenKind::Number(n),
            TokenKind::StrLit(ref s) => SpecTokenKind::StrLit(s@),
            TokenKind::Boolean(b) => SpecTokenKind::Boolean(b),
            TokenKind::Eof => SpecTokenKind::Eof,
        }
    }
}

impl View for Token {
    type V = SpecToken;

    open spec fn view(&self) -> SpecToken {
        SpecToken { kind: self.kind@, line: self.line as int, col: self.col as int }
    }
}

pub open spec fn view_toks(ts: Seq<Token>) -> Seq<SpecToken> {
    Seq::new(ts.len(), |i: int| ts[i]@)
}

// ---------------------------------------------------------------------------
// Character classes
// ---------------------------------------------------------------------------

/// Whether a byte continues an identifier. Decided by the character the
/// byte denotes when read alone, which only a Unicode table settles; the
/// scanner consults it through the trusted `word_byte` below.
pub uninterp spec fn is_word_byte(b: u8) -> bool;

/// Relies on char::is_alphanumeric, a pure function of its character, to
/// decide whether a byte continues an identifier when the byte is read as a
/// single character; an underscore also continues one.
#[verifier::external_body]
fn word_byte(b: u8) -> (r: bool)
    ensures
        r == is_word_byte(b),
{
    (b as char).is_alphanumeric() || b as char == '_'
}

/// Relies on String::from_utf8, which succeeds exactly on valid UTF-8 and
/// decodes the bytes into their character sequence.
#[verifier::external_body]
fn bytes_to_string(v: Vec<u8>) -> (r: Option<String>)
    ensures
        r is Some <==> valid_utf8(v@),
        r is Some ==> r.unwrap()@ == decode_utf8(v@),
{
    String::from_utf8(v).ok()
}

pub open spec fn is_digit(b: u8) -> bool {
    48 <= b <= 57
}

pub open spec fn is_digit_or_dot(b: u8) -> bool {
    is_digit(b) || b == 46
}

/// Whether a byte begins an identifier or keyword: an ASCII letter or an
/// underscore.
pub open spec fn is_word_start(b: u8) -> bool {
    (97 <= b <= 122) || (65 <= b <= 90) || b == 95
}

/// ASCII lower-casing of one byte.
pub open spec fn lower_byte(b: u8) -> u8 {
    if 65 <= b <= 90 {
        (b + 32) as u8
    } else {
        b
    }
}

pub open spec fn lower_bytes(s: Seq<u8>) -> Seq<u8> {
    Seq::new(s.len(), |i: int| lower_byte(s[i]))
}

// ---------------------------------------------------------------------------
// Scan helpers: where each multi-byte form ends
// ---------------------------------------------------------------------------

/// First index at or after `j` whose byte is not a digit or dot, or the end
/// of input.
pub open spec fn scan_number_end(bytes: Seq<u8>, j: int) -> int
    decreases bytes.len() - j,
{
    if !(0 <= j < bytes.len()) {
        bytes.len() as int
    } else if is_digit_or_dot(bytes[j]) {
        scan_number_end(bytes, j + 1)
    } else {
        j
    }
}

/// First index at or after `j` whose byte does not continue an identifier,
/// or the end of input.
pub open spec fn scan_word_end(bytes: Seq<u8>, j: int) -> int
    decreases bytes.len() - j,
{
    if !(0 <= j < bytes.len()) {
        bytes.len() as int
    } else if is_word_byte(bytes[j]) {
        scan_word_end(bytes, j + 1)
    } else {
        j
    }
}

/// First index at or after `j` holding a newline, or the end of input.
pub open spec fn scan_line_end(bytes: Seq<u8>, j: int) -> int
    decreases bytes.len() - j,
{
    if !(0 <= j < bytes.len()) {
        bytes.len() as int
    } else if bytes[j] == 10 {
        j
    } else {
        scan_line_end(bytes, j + 1)
    }
}

/// Scans a block comment from `j`, tracking line and column, until the
/// closing `*/`. Returns the position just past the close and the position
/// counters there, or `None` when no close exists before the input ends.
pub open spec fn scan_block_comment(bytes: Seq<u8>, j: int, line: int, col: int) -> Option<
    (int, int, int),
>
    decreases bytes.len() - j,
{
    if !(0 <= j && j + 1 < bytes.len()) {
        Option::None
    } else if bytes[j] == 42 && bytes[j + 1] == 47 {
        Option::Some((j + 2, line, col + 2))
    } else if bytes[j] == 10 {
        scan_block_comment(bytes, j + 1, line + 1, 1)
    } else {
        scan_block_comment(bytes, j + 1, line, col + 1)
    }
}

/// The number of consecutive backslashes immediately before index `k + 1`,
/// counting down to (and excluding) the opening quote at `open`.
pub open spec fn backslash_run(bytes: Seq<u8>, open: int, k: int) -> int
    decreases k - open,
{
    if k <= open || !(0 <= k < bytes.len()) || bytes[k] != 92 {
        0
    } else {
        1 + backslash_run(bytes, open, k - 1)
    }
}

/// The index of the closing quote of a string literal opened at `open`,
/// scanning from `j`: the first quote preceded by an even number of
/// backslashes. `None` when the literal never closes.
pub open spec fn scan_string_end(bytes: Seq<u8>, open: int, j: int) -> Option<int>
    decreases bytes.len() - j,
{
    if !(0 <= j < bytes.len()) {
        Option::None
    } else if bytes[j] == 34 && backslash_run(bytes, open, j - 1) % 2 == 0 {
        Option::Some(j)
    } else {
        scan_string_end(bytes, open, j + 1)
    }
}

// ---------------------------------------------------------------------------
// Numeric literals
// ---------------------------------------------------------------------------

/// The value of a digit sequence read in base 10.
pub open spec fn digits_value(s: Seq<u8>) -> int
    decreases s.len(),
{
    if s.len() == 0 {
        0
    } else {
        digits_value(s.drop_last()) * 10 + (s.last() - 48)
    }
}

pub open spec fn has_dot(s: Seq<u8>) -> bool {
    exists|i: int| 0 <= i < s.len() && s[i] == 46
}

/// The token value of a numeric literal slice: its base-10 value, or an
/// invalid-number error when it holds a dot or exceeds the 64-bit signed
/// range.
pub open spec fn spec_number_token(s: Seq<u8>) -> Result<i64, LexError> {
    if has_dot(s) || digits_value(s) > i64::MAX {
        Result::Err(LexError::InvalidNumber)
    } else {
        Result::Ok(digits_value(s) as i64)
    }
}

// ---------------------------------------------------------------------------
// Keywords
// ---------------------------------------------------------------------------

/// The token kind of an identifier-or-keyword slice `w` (not yet lowercased):
/// the keyword's kind for the case-insensitive keywords, a boolean literal
/// for `true`/`false`, and otherwise an identifier holding the decoded word,
/// or an error when the word is not valid UTF-8.
pub open spec fn spec_word_token(w: Seq<u8>) -> Result<SpecTokenKind, LexError> {
    let lw = lower_bytes(w);
    if lw == seq![103u8, 101u8, 116u8] {  // get
        Result::Ok(SpecTokenKind::KwGet)
    } else if lw == seq![115u8, 101u8, 116u8] {  // set
        Result::Ok(SpecTokenKind::KwSet)
    } else if lw == seq![119u8, 104u8, 101u8, 114u8, 101u8] {  // where
        Result::Ok(SpecTokenKind::KwWhere)
    } else if lw == seq![100u8, 101u8, 108u8, 101u8, 116u8, 101u8] {  // delete
        Result::Ok(SpecTokenKind::KwDelete)
    } else if lw == seq![102u8, 117u8, 110u8, 99u8] {  // func
        Result::Ok(SpecTokenKind::KwFunc)
    } else if lw == seq![108u8, 101u8, 116u8] {  // let
        Result::Ok(SpecTokenKind::KwLet)
    } else if lw == seq![116u8, 114u8, 117u8, 101u8] {  // true
        Result::Ok(SpecTokenKind::Boolean(true))
    } else if lw == seq![102u8, 97u8, 108u8, 115u8, 101u8] {  // false
        Result::Ok(SpecTokenKind::Boolean(false))
    } else if valid_utf8(w) {
        Result::Ok(SpecTokenKind::Identifier(decode_utf8(w)))
    } else {
        Result::Err(LexError::InvalidUtf8)
    }
}

// ---------------------------------------------------------------------------
// The scan itself
// ---------------------------------------------------------------------------

pub open spec fn one_token(
    kind: SpecTokenKind,
    line: int,
    col: int,
    rest: Result<Seq<SpecToken>, LexError>,
) -> Result<Seq<SpecToken>, LexError> {
    match rest {
        Result::Ok(ts) => Result::Ok(seq![SpecToken { kind, line, col }] + ts),
        Result::Err(e) => Result::Err(e),
    }
}

/// The single-character tokens: the byte and its kind.
pub open spec fn single_char_kind(b: u8) -> Option<SpecTokenKind> {
    if b == 46 {
        Option::Some(SpecTokenKind::Dot)
    } else if b == 43 {
        Option::Some(SpecTokenKind::Plus)
    } else if b == 45 {
        Option::Some(SpecTokenKind::Minus)
    } else if b == 42 {
        Option::Some(SpecTokenKind::Multiply)
    } else if b == 40 {
        Option::Some(SpecTokenKind::LParen)
    } else if b == 41 {
        Option::Some(SpecTokenKind::RParen)
    } else if b == 123 {
        Option::Some(SpecTokenKind::LBrace)
    } else if b == 125 {
        Option::Some(SpecTokenKind::RBrace)
    } else if b == 91 {
        Option::Some(SpecTokenKind::LBracket)
    } else if b == 93 {
        Option::Some(SpecTokenKind::RBracket)
    } else if b == 44 {
        Option::Some(SpecTokenKind::Comma)
    } else if b == 59 {
        Option::Some(SpecTokenKind::Semicolon)
    } else {
        Option::None
    }
}

/// The model of the scan from position `i` with the given line and column
/// counters: the remaining tokens (ending with an end-of-input token), or
/// the first error.
pub open spec fn spec_tokenize_from(bytes: Seq<u8>, i: int, line: int, col: int) -> Result<
    Seq<SpecToken>,
    LexError,
>
    decreases bytes.len() - i,
    when 0 <= i
    via spec_tokenize_from_decreases
{
    let len = bytes.len() as int;
    if i >= len {
        Result::Ok(seq![SpecToken { kind: SpecTokenKind::Eof, line, col }])
    } else {
        let b = bytes[i];
        if b == 32 {  // space
            spec_tokenize_from(bytes, i + 1, line, col + 1)
        } else if b == 10 {  // newline
            spec_tokenize_from(bytes, i + 1, line + 1, 1)
        } else if b == 13 {  // carriage return
            spec_tokenize_from(bytes, i + 1, line, col)
        } else if b == 9 {  // tab
            spec_tokenize_from(bytes, i + 1, line, col + 4)
        } else if single_char_kind(b) is Some {
            one_token(
                single_char_kind(b).unwrap(),
                line,
                col,
                spec_tokenize_from(bytes, i + 1, line, col + 1),
            )
        } else if b == 47 {  // slash: comments or division
            if i + 1 < len && bytes[i + 1] == 47 {
                let j = scan_line_end(bytes, i + 2);
                spec_tokenize_from(bytes, j, line, col + (j - i))
            } else if i + 1 < len && bytes[i + 1] == 42 {
                match scan_block_comment(bytes, i + 2, line, col + 2) {
                    Option::Some((j, line2, col2)) => spec_tokenize_from(bytes, j, line2, col2),
                    Option::None => Result::Err(LexError::UnterminatedComment),
                }
            } else {
                one_token(
                    SpecTokenKind::Divide,
                    line,
                    col,
                    spec_tokenize_from(bytes, i + 1, line, col + 1),
                )
            }
        } else if b == 61 {  // '='
            if i + 1 < len && bytes[i + 1] == 61 {
                one_token(
                    SpecTokenKind::Eq,
                    line,
                    col,
                    spec_tokenize_from(bytes, i + 2, line, col + 2),
                )
            } else {
                one_token(
                    SpecTokenKind::Assign,
                    line,
                    col,
                    spec_tokenize_from(bytes, i + 1, line, col + 1),
                )
            }
        } else if b == 62 {  // '>'
            if i + 1 < len && bytes[i + 1] == 61 {
                one_token(
                    SpecTokenKind::Gte,
                    line,
                    col,
                    spec_tokenize_from(bytes, i + 2, line, col + 2),
                )
            } else {
                one_token(
                    SpecTokenKind::Gt,
                    line,
                    col,
                    spec_tokenize_from(bytes, i + 1, line, col + 1),
                )
            }
        } else if b == 60 {  // '<'
            if i + 1 < len && bytes[i + 1] == 61 {
                one_token(
                    SpecTokenKind::Lte,
                    line,
                    col,
                    spec_tokenize_from(bytes, i + 2, line, col + 2),
                )
            } else {
                one_token(
                    SpecTokenKind::Lt,
                    line,
                    col,
                    spec_tokenize_from(bytes, i + 1, line, col + 1),
                )
            }
        } else if b == 33 {  // '!'
            if i + 1 < len && bytes[i + 1] == 61 {
                one_token(
                    SpecTokenKind::Neq,
                    line,
                    col,
                    spec_tokenize_from(bytes, i + 2, line, col + 2),
                )
            } else {
                Result::Err(LexError::MalformedNot)
            }
        } else if b == 38 {  // '&'
            if i + 1 < len && bytes[i + 1] == 38 {
                one_token(
                    SpecTokenKind::And,
                    line,
                    col,
                    spec_tokenize_from(bytes, i + 2, line, col + 2),
                )
            } else {
                Result::Err(LexError::UnexpectedChar(38))
            }
        } else if b == 124 {  // '|'
            if i + 1 < len && bytes[i + 1] == 124 {
                one_token(
                    SpecTokenKind::Or,
                    line,
                    col,
                    spec_tokenize_from(bytes, i + 2, line, col + 2),
                )
            } else {
                Result::Err(LexError::UnexpectedChar(124))
            }
        } else if is_digit(b) {
            let j = scan_number_end(bytes, i + 1);
            match spec_number_token(bytes.subrange(i, j)) {
                Result::Ok(n) => one_token(
                    SpecTokenKind::Number(n),
                    line,
                    col,
                    spec_tokenize_from(bytes, j, line, col + (j - i)),
                ),
                Result::Err(e) => Result::Err(e),
            }
        } else if b == 34 {  // '"'
            match scan_string_end(bytes, i, i + 1) {
                Option::None => Result::Err(LexError::UnterminatedString),
                Option::Some(j) => {
                    let w = bytes.subrange(i + 1, j);
                    if valid_utf8(w) {
                        one_token(
                            SpecTokenKind::StrLit(decode_utf8(w)),
                            line,
                            col,
                            spec_tokenize_from(bytes, j + 1, line, col + (j - i + 1)),
                        )
                    } else {
                        Result::Err(LexError::InvalidUtf8)
                    }
                },
            }
        } else if is_word_start(b) {
            let j = scan_word_end(bytes, i + 1);
            match spec_word_token(bytes.subrange(i, j)) {
                Result::Ok(kind) => one_token(
                    kind,
                    line,
                    col,
                    spec_tokenize_from(bytes, j, line, col + (j - i)),
                ),
                Result::Err(e) => Result::Err(e),
            }
        } else {
            Result::Err(LexError::UnexpectedChar(b))
        }
    }
}

#[via_fn]
proof fn spec_tokenize_from_decreases(bytes: Seq<u8>, i: int, line: int, col: int) {
    let len = bytes.len() as int;
    if 0 <= i < len {
        if i + 1 < len {
            lemma_scan_line_end(bytes, i + 2);
        }
        lemma_scan_block_comment(bytes, i + 2, line, col + 2);
        lemma_scan_number_end(bytes, i + 1);
        lemma_scan_string_end(bytes, i, i + 1);
        lemma_scan_word_end(bytes, i + 1);
    }
}

/// The model of the whole scan of `bytes`.
pub open spec fn spec_tokenize(bytes: Seq<u8>) -> Result<Seq<SpecToken>, LexError> {
    spec_tokenize_from(bytes, 0, 1, 1)
}

// ---------------------------------------------------------------------------
// Bounds of the scan helpers
// ---------------------------------------------------------------------------

pub proof fn lemma_scan_number_end(bytes: Seq<u8>, j: int)
    requires
        0 <= j <= bytes.len(),
    ensures
        j <= scan_number_end(bytes, j),
        scan_number_end(bytes, j) <= bytes.len(),
        forall|k: int| j <= k < scan_number_end(bytes, j) ==> is_digit_or_dot(#[trigger] bytes[k]),
    decreases bytes.len() - j,
{
    if 0 <= j < bytes.len() && is_digit_or_dot(bytes[j]) {
        lemma_scan_number_end(bytes, j + 1);
    }
}

pub proof fn lemma_scan_word_end(bytes: Seq<u8>, j: int)
    requires
        0 <= j <= bytes.len(),
    ensures
        j <= scan_word_end(bytes, j),
        scan_word_end(bytes, j) <= bytes.len(),
    decreases bytes.len() - j,
{
    if 0 <= j < bytes.len() && is_word_byte(bytes[j]) {
        lemma_scan_word_end(bytes, j + 1);
    }
}

pub proof fn lemma_scan_line_end(bytes: Seq<u8>, j: int)
    requires
        0 <= j <= bytes.len(),
    ensures
        j <= scan_line_end(bytes, j),
        scan_line_end(bytes, j) <= bytes.len(),
    decreases bytes.len() - j,
{
    if 0 <= j < bytes.len() && bytes[j] != 10 {
        lemma_scan_line_end(bytes, j + 1);
    }
}

pub proof fn lemma_scan_block_comment(bytes: Seq<u8>, j: int, line: int, col: int)
    ensures
        scan_block_comment(bytes, j, line, col) matches Option::Some((j2, _l, _c)) ==> j + 2 <= j2
            <= bytes.len(),
    decreases bytes.len() - j,
{
    if 0 <= j && j + 1 < bytes.len() && !(bytes[j] == 42 && bytes[j + 1] == 47) {
        if bytes[j] == 10 {
            lemma_scan_block_comment(bytes, j + 1, line + 1, 1);
        } else {
            lemma_scan_block_comment(bytes, j + 1, line, col + 1);
        }
    }
}

pub proof fn lemma_scan_string_end(bytes: Seq<u8>, open: int, j: int)
    ensures
        scan_string_end(bytes, open, j) matches Option::Some(j2) ==> j <= j2 < bytes.len(),
    decreases bytes.len() - j,
{
    if 0 <= j < bytes.len() && !(bytes[j] == 34 && backslash_run(bytes, open, j - 1) % 2 == 0) {
        lemma_scan_string_end(bytes, open, j + 1);
    }
}

// ---------------------------------------------------------------------------
// The executable scan helpers
// ---------------------------------------------------------------------------

/// Copies the bytes in `[a, b)` out of `v`.
fn sub_vec(v: &Vec<u8>, a: usize, b: usize) -> (r: Vec<u8>)
    requires
        a <= b <= v@.len(),
    ensures
        r@ == v@.subrange(a as int, b as int),
{
    let mut r: Vec<u8> = Vec::new();
    let mut k: usize = a;
    while k < b
        invariant
            a <= k <= b <= v@.len(),
            r@ == v@.subrange(a as int, k as int),
        decreases b - k,
    {
        r.push(v[k]);
        proof {
            assert(v@.subrange(a as int, k + 1 as int) =~= v@.subrange(a as int, k as int).push(
                v@[k as int],
            ));
        }
        k = k + 1;
    }
    r
}

fn scan_number_end_x(bytes: &Vec<u8>, j0: usize) -> (r: usize)
    requires
        j0 <= bytes@.len(),
    ensures
        r == scan_number_end(bytes@, j0 as int),
        j0 <= r <= bytes@.len(),
{
    proof {
        lemma_scan_number_end(bytes@, j0 as int);
    }
    let mut j: usize = j0;
    while j < bytes.len() && ((bytes[j] >= 48 && bytes[j] <= 57) || bytes[j] == 46)
        invariant
            j0 <= j <= bytes@.len(),
            scan_number_end(bytes@, j0 as int) == scan_number_end(bytes@, j as int),
        decreases bytes@.len() - j,
    {
        j = j + 1;
    }
    j
}

fn scan_word_end_x(bytes: &Vec<u8>, j0: usize) -> (r: usize)
    requires
        j0 <= bytes@.len(),
    ensures
        r == scan_word_end(bytes@, j0 as int),
        j0 <= r <= bytes@.len(),
{
    proof {
        lemma_scan_word_end(bytes@, j0 as int);
    }
    let mut j: usize = j0;
    loop
        invariant
            j0 <= j <= bytes@.len(),
            scan_word_end(bytes@, j0 as int) == scan_word_end(bytes@, j as int),
        ensures
            j0 <= j <= bytes@.len(),
            scan_word_end(bytes@, j0 as int) == j as int,
        decreases bytes@.len() - j,
    {
        if j < bytes.len() && word_byte(bytes[j]) {
            j = j + 1;
        } else {
            break;
        }
    }
    j
}

fn scan_line_end_x(bytes: &Vec<u8>, j0: usize) -> (r: usize)
    requires
        j0 <= bytes@.len(),
    ensures
        r == scan_line_end(bytes@, j0 as int),
        j0 <= r <= bytes@.len(),
{
    proof {
        lemma_scan_line_end(bytes@, j0 as int);
    }
    let mut j: usize = j0;
    while j < bytes.len() && bytes[j] != 10
        invariant
            j0 <= j <= bytes@.len(),
            scan_line_end(bytes@, j0 as int) == scan_line_end(bytes@, j as int),
        decreases bytes@.len() - j,
    {
        j = j + 1;
    }
    j
}

fn scan_block_comment_x(bytes: &Vec<u8>, j0: usize, line0: usize, col0: usize) -> (r: Option<
    (usize, usize, usize),
>)
    requires
        j0 <= bytes@.len(),
        1 <= line0,
        line0 as int <= 1 + j0 as int,
        1 <= col0,
        col0 as int <= 1 + 4 * (j0 as int),
        4 * bytes@.len() + 1 <= usize::MAX,
    ensures
        match r {
            Option::Some((j2, l2, c2)) => scan_block_comment(bytes@, j0 as int, line0 as int, col0 as int)
                == Option::Some((j2 as int, l2 as int, c2 as int)) && j0 <= j2 <= bytes@.len()
                && 1 <= l2 && l2 as int <= 1 + j2 as int && 1 <= c2 && c2 as int <= 1 + 4 * (
            j2 as int),
            Option::None => scan_block_comment(bytes@, j0 as int, line0 as int, col0 as int) is None,
        },
{
    let mut j: usize = j0;
    let mut line: usize = line0;
    let mut col: usize = col0;
    loop
        invariant
            j0 <= j <= bytes@.len(),
            1 <= line,
            line as int <= 1 + j as int,
            1 <= col,
            col as int <= 1 + 4 * (j as int),
            4 * bytes@.len() + 1 <= usize::MAX,
            scan_block_comment(bytes@, j0 as int, line0 as int, col0 as int) == scan_block_comment(
                bytes@,
                j as int,
                line as int,
                col as int,
            ),
        decreases bytes@.len() - j,
    {
        if j + 1 < bytes.len() {
            if bytes[j] == 42 && bytes[j + 1] == 47 {
                return Option::Some((j + 2, line, col + 2));
            }
            if bytes[j] == 10 {
                line = line + 1;
                col = 1;
            } else {
                col = col + 1;
            }
            j = j + 1;
        } else {
            return Option::None;
        }
    }
}

fn backslash_run_x(bytes: &Vec<u8>, open: usize, last: usize) -> (r: usize)
    requires
        open <= last < bytes@.len(),
    ensures
        r as int == backslash_run(bytes@, open as int, last as int),
{
    let mut k: usize = last;
    let mut cnt: usize = 0;
    loop
        invariant
            open <= k <= last < bytes@.len(),
            cnt == last - k,
            backslash_run(bytes@, open as int, last as int) == cnt + backslash_run(
                bytes@,
                open as int,
                k as int,
            ),
        decreases k,
    {
        if k > open && bytes[k] == 92 {
            cnt = cnt + 1;
            k = k - 1;
        } else {
            return cnt;
        }
    }
}

fn scan_string_end_x(bytes: &Vec<u8>, open: usize, j0: usize) -> (r: Option<usize>)
    requires
        open < j0 <= bytes@.len(),
    ensures
        match r {
            Option::Some(j2) => scan_string_end(bytes@, open as int, j0 as int) == Option::Some(
                j2 as int,
            ) && j0 <= j2 < bytes@.len(),
            Option::None => scan_string_end(bytes@, open as int, j0 as int) is None,
        },
{
    let mut j: usize = j0;
    loop
        invariant
            open < j0 <= j <= bytes@.len(),
            scan_string_end(bytes@, open as int, j0 as int) == scan_string_end(
                bytes@,
                open as int,
                j as int,
            ),
        decreases bytes@.len() - j,
    {
        if j < bytes.len() {
            if bytes[j] == 34 {
                let run = backslash_run_x(bytes, open, j - 1);
                if run % 2 == 0 {
                    return Option::Some(j);
                }
            }
            j = j + 1;
        } else {
            return Option::None;
        }
    }
}

/// Reads the value of a numeric literal slice `[i, j)`.
fn parse_number_slice(bytes: &Vec<u8>, i: usize, j: usize) -> (r: Result<i64, LexError>)
    requires
        i < j <= bytes@.len(),
        forall|k: int| i <= k < j ==> is_digit_or_dot(#[trigger] bytes@[k]),
    ensures
        r == spec_number_token(bytes@.subrange(i as int, j as int)),
{
    let ghost s = bytes@.subrange(i as int, j as int);
    let mut k: usize = i;
    let mut val: i64 = 0;
    let mut overflow: bool = false;
    let mut dot: bool = false;
    while k < j
        invariant
            i <= k <= j <= bytes@.len(),
            s == bytes@.subrange(i as int, j as int),
            forall|m: int| i <= m < j ==> is_digit_or_dot(#[trigger] bytes@[m]),
            dot == has_dot(bytes@.subrange(i as int, k as int)),
            !dot ==> overflow == (digits_value(bytes@.subrange(i as int, k as int)) > i64::MAX),
            !dot && !overflow ==> val == digits_value(bytes@.subrange(i as int, k as int)),
            0 <= val,
        decreases j - k,
    {
        let ghost pre = bytes@.subrange(i as int, k as int);
        let ghost post = bytes@.subrange(i as int, k + 1 as int);
        proof {
            assert(post.drop_last() =~= pre);
            assert(post.last() == bytes@[k as int]);
        }
        let b = bytes[k];
        if b == 46 {
            dot = true;
        } else if !dot {
            let d = (b - 48) as i64;
            if !overflow {
                if val > (i64::MAX - d) / 10 {
                    overflow = true;
                    proof {
                        lemma_step_overflows(digits_value(pre), d as int);
                    }
                } else {
                    val = val * 10 + d;
                }
            } else {
                proof {
                    lemma_big_stays_big(digits_value(pre), d as int);
                }
            }
        }
        k = k + 1;
    }
    if dot || overflow {
        Result::Err(LexError::InvalidNumber)
    } else {
        Result::Ok(val)
    }
}

/// A value at most the 64-bit signed maximum steps past it exactly when the
/// next digit pushes it past.
proof fn lemma_step_overflows(v: int, d: int)
    requires
        0 <= v <= i64::MAX,
        0 <= d,
        v > (i64::MAX - d) / 10,
    ensures
        v * 10 + d > i64::MAX,
{
    assert(v * 10 + d > i64::MAX) by (nonlinear_arith)
        requires
            0 <= v,
            0 <= d,
            v > (i64::MAX - d) / 10,
    ;
}

/// A value past the 64-bit signed maximum stays past it after another digit.
proof fn lemma_big_stays_big(v: int, d: int)
    requires
        v > i64::MAX,
        0 <= d,
    ensures
        v * 10 + d > i64::MAX,
{
    assert(v * 10 + d > i64::MAX) by (nonlinear_arith)
        requires
            v > i64::MAX,
            0 <= d,
    ;
}

/// Lower-cases a byte.
fn lower_byte_x(b: u8) -> (r: u8)
    ensures
        r == lower_byte(b),
{
    if b >= 65 && b <= 90 {
        b + 32
    } else {
        b
    }
}

/// The token kind of an identifier-or-keyword slice.
fn word_token(w: Vec<u8>) -> (r: Result<TokenKind, LexError>)
    ensures
        match r {
            Result::Ok(kind) => spec_word_token(w@) == Result::<SpecTokenKind, LexError>::Ok(
                kind@,
            ),
            Result::Err(e) => spec_word_token(w@) == Result::<SpecTokenKind, LexError>::Err(e),
        },
{
    let mut lw: Vec<u8> = Vec::new();
    let mut k: usize = 0;
    while k < w.len()
        invariant
            k <= w@.len(),
            lw@ == lower_bytes(w@).take(k as int),
        decreases w@.len() - k,
    {
        lw.push(lower_byte_x(w[k]));
        proof {
            assert(lower_bytes(w@).take(k + 1 as int) =~= lower_bytes(w@).take(k as int).push(
                lower_byte(w@[k as int]),
            ));
        }
        k = k + 1;
    }
    proof {
        assert(lw@ =~= lower_bytes(w@));
    }
    if lw.len() == 3 && lw[0] == 103 && lw[1] == 101 && lw[2] == 116 {
        proof {
            assert(lower_bytes(w@) =~= seq![103u8, 101u8, 116u8]);
        }
        Result::Ok(TokenKind::KwGet)
    } else if lw.len() == 3 && lw[0] == 115 && lw[1] == 101 && lw[2] == 116 {
        proof {
            assert(lower_bytes(w@) =~= seq![115u8, 101u8, 116u8]);
        }
        Result::Ok(TokenKind::KwSet)
    } else if lw.len() == 5 && lw[0] == 119 && lw[1] == 104 && lw[2] == 101 && lw[3] == 114
        && lw[4] == 101 {
        proof {
            assert(lower_bytes(w@) =~= seq![119u8, 104u8, 101u8, 114u8, 101u8]);
        }
        Result::Ok(TokenKind::KwWhere)
    } else if lw.len() == 6 && lw[0] == 100 && lw[1] == 101 && lw[2] == 108 && lw[3] == 101
        && lw[4] == 116 && lw[5] == 101 {
        proof {
            assert(lower_bytes(w@) =~= seq![100u8, 101u8, 108u8, 101u8, 116u8, 101u8]);
        }
        Result::Ok(TokenKind::KwDelete)
    } else if lw.len() == 4 && lw[0] == 102 && lw[1] == 117 && lw[2] == 110 && lw[3] == 99 {
        proof {
            assert(lower_bytes(w@) =~= seq![102u8, 117u8, 110u8, 99u8]);
        }
        Result::Ok(TokenKind::KwFunc)
    } else if lw.len() == 3 && lw[0] == 108 && lw[1] == 101 && lw[2] == 116 {
        proof {
            assert(lower_bytes(w@) =~= seq![108u8, 101u8, 116u8]);
        }
        Result::Ok(TokenKind::KwLet)
    } else if lw.len() == 4 && lw[0] == 116 && lw[1] == 114 && lw[2] == 117 && lw[3] == 101 {
        proof {
            assert(lower_bytes(w@) =~= seq![116u8, 114u8, 117u8, 101u8]);
        }
        Result::Ok(TokenKind::Boolean(true))
    } else if lw.len() == 5 && lw[0] == 102 && lw[1] == 97 && lw[2] == 108 && lw[3] == 115
        && lw[4] == 101 {
        proof {
            assert(lower_bytes(w@) =~= seq![102u8, 97u8, 108u8, 115u8, 101u8]);
        }
        Result::Ok(TokenKind::Boolean(false))
    } else {
        proof {
            lemma_not_keyword(lower_bytes(w@));
        }
        match bytes_to_string(w) {
            Option::Some(s) => Result::Ok(TokenKind::Identifier(s)),
            Option::None => Result::Err(LexError::InvalidUtf8),
        }
    }
}

/// A lowercased slice that differs from every keyword in some position is
/// none of them.
proof fn lemma_not_keyword(lw: Seq<u8>)
    ensures
        lw == seq![103u8, 101u8, 116u8] ==> lw.len() == 3 && lw[0] == 103 && lw[1] == 101
            && lw[2] == 116,
        lw == seq![115u8, 101u8, 116u8] ==> lw.len() == 3 && lw[0] == 115 && lw[1] == 101
            && lw[2] == 116,
        lw == seq![119u8, 104u8, 101u8, 114u8, 101u8] ==> lw.len() == 5 && lw[0] == 119 && lw[1]
            == 104 && lw[2] == 101 && lw[3] == 114 && lw[4] == 101,
        lw == seq![100u8, 101u8, 108u8, 101u8, 116u8, 101u8] ==> lw.len() == 6 && lw[0] == 100
            && lw[1] == 101 && lw[2] == 108 && lw[3] == 101 && lw[4] == 116 && lw[5] == 101,
        lw == seq![102u8, 117u8, 110u8, 99u8] ==> lw.len() == 4 && lw[0] == 102 && lw[1] == 117
            && lw[2] == 110 && lw[3] == 99,
        lw == seq![108u8, 101u8, 116u8] ==> lw.len() == 3 && lw[0] == 108 && lw[1] == 101 && lw[2]
            == 116,
        lw == seq![116u8, 114u8, 117u8, 101u8] ==> lw.len() == 4 && lw[0] == 116 && lw[1] == 114
            && lw[2] == 117 && lw[3] == 101,
        lw == seq![102u8, 97u8, 108u8, 115u8, 101u8] ==> lw.len() == 5 && lw[0] == 102 && lw[1]
            == 97 && lw[2] == 108 && lw[3] == 115 && lw[4] == 101,
{
}

/// The kind of a token spelled by one byte alone.
fn single_char_kind_x(b: u8) -> (r: Option<TokenKind>)
    ensures
        match r {
            Option::Some(kind) => single_char_kind(b) == Option::Some(kind@),
            Option::None => single_char_kind(b) is None,
        },
{
    if b == 46 {
        Option::Some(TokenKind::Dot)
    } else if b == 43 {
        Option::Some(TokenKind::Plus)
    } else if b == 45 {
        Option::Some(TokenKind::Minus)
    } else if b == 42 {
        Option::Some(TokenKind::Multiply)
    } else if b == 40 {
        Option::Some(TokenKind::LParen)
    } else if b == 41 {
        Option::Some(TokenKind::RParen)
    } else if b == 123 {
        Option::Some(TokenKind::LBrace)
    } else if b == 125 {
        Option::Some(TokenKind::RBrace)
    } else if b == 91 {
        Option::Some(TokenKind::LBracket)
    } else if b == 93 {
        Option::Some(TokenKind::RBracket)
    } else if b == 44 {
        Option::Some(TokenKind::Comma)
    } else if b == 59 {
        Option::Some(TokenKind::Semicolon)
    } else {
        Option::None
    }
}

// ---------------------------------------------------------------------------
// The executable scanner
// ---------------------------------------------------------------------------

/// Whether an executable scan result is exactly the modelled one.
pub open spec fn lex_matches(
    r: Result<Vec<Token>, LexError>,
    s: Result<Seq<SpecToken>, LexError>,
) -> bool {
    match (r, s) {
        (Result::Ok(v), Result::Ok(ts)) => view_toks(v@) == ts,
        (Result::Err(e1), Result::Err(e2)) => e1 == e2,
        _ => false,
    }
}

/// Appending a scanned prefix in front of the model of the remaining scan.
pub open spec fn tok_app(
    prefix: Seq<SpecToken>,
    rest: Result<Seq<SpecToken>, LexError>,
) -> Result<Seq<SpecToken>, LexError> {
    match rest {
        Result::Ok(ts) => Result::Ok(prefix + ts),
        Result::Err(e) => Result::Err(e),
    }
}

/// The scan invariant: the source position is in range, the counters are
/// bounded (so that column arithmetic cannot overflow), and the tokens
/// collected so far followed by the model of the remaining scan give the
/// model of the whole scan.
pub open spec fn scan_inv(
    bytes: Seq<u8>,
    toks: Seq<Token>,
    i: int,
    line: int,
    col: int,
    whole: Result<Seq<SpecToken>, LexError>,
) -> bool {
    &&& i <= bytes.len()
    &&& 4 * bytes.len() + 1 <= usize::MAX
    &&& 1 <= line
    &&& line <= 1 + i
    &&& 1 <= col
    &&& col <= 1 + 4 * i
    &&& tok_app(view_toks(toks), spec_tokenize_from(bytes, i, line, col)) == whole
}

/// One whitespace byte: space, newline, carriage return or tab.
fn lex_ws(
    bytes: &Vec<u8>,
    i: usize,
    line: usize,
    col: usize,
    toks: Ghost<Seq<Token>>,
    whole: Ghost<Result<Seq<SpecToken>, LexError>>,
) -> (r: (usize, usize, usize))
    requires
        scan_inv(bytes@, toks@, i as int, line as int, col as int, whole@),
        i < bytes@.len(),
        bytes@[i as int] == 32 || bytes@[i as int] == 10 || bytes@[i as int] == 13
            || bytes@[i as int] == 9,
    ensures
        scan_inv(bytes@, toks@, r.0 as int, r.1 as int, r.2 as int, whole@),
        i < r.0,
{
    let b = bytes[i];
    if b == 32 {
        (i + 1, line, col + 1)
    } else if b == 10 {
        (i + 1, line + 1, 1)
    } else if b == 13 {
        (i + 1, line, col)
    } else {
        (i + 1, line, col + 4)
    }
}

/// One token spelled by a single byte.
fn lex_single(
    bytes: &Vec<u8>,
    tokens: &mut Vec<Token>,
    kind: TokenKind,
    i: usize,
    line: usize,
    col: usize,
    whole: Ghost<Result<Seq<SpecToken>, LexError>>,
) -> (r: (usize, usize, usize))
    requires
        scan_inv(bytes@, old(tokens)@, i as int, line as int, col as int, whole@),
        i < bytes@.len(),
        single_char_kind(bytes@[i as int]) == Option::Some(kind@),
    ensures
        scan_inv(bytes@, final(tokens)@, r.0 as int, r.1 as int, r.2 as int, whole@),
        i < r.0,
{
    push_token(tokens, kind, line, col, whole, Ghost(
        spec_tokenize_from(bytes@, i as int + 1, line as int, col as int + 1),
    ));
    (i + 1, line, col + 1)
}

/// A slash: a line comment, a block comment, or the division operator.
fn lex_slash(
    bytes: &Vec<u8>,
    tokens: &mut Vec<Token>,
    i: usize,
    line: usize,
    col: usize,
    whole: Ghost<Result<Seq<SpecToken>, LexError>>,
) -> (r: Result<(usize, usize, usize), LexError>)
    requires
        scan_inv(bytes@, old(tokens)@, i as int, line as int, col as int, whole@),
        i < bytes@.len(),
        bytes@[i as int] == 47,
    ensures
        match r {
            Result::Ok((i2, l2, c2)) => scan_inv(
                bytes@,
                final(tokens)@,
                i2 as int,
                l2 as int,
                c2 as int,
                whole@,
            ) && i < i2,
            Result::Err(e) => whole@ == Result::<Seq<SpecToken>, LexError>::Err(e),
        },
{
    if i + 1 < bytes.len() && bytes[i + 1] == 47 {
        let j = scan_line_end_x(bytes, i + 2);
        Result::Ok((j, line, col + (j - i)))
    } else if i + 1 < bytes.len() && bytes[i + 1] == 42 {
        match scan_block_comment_x(bytes, i + 2, line, col + 2) {
            Option::Some((j2, l2, c2)) => Result::Ok((j2, l2, c2)),
            Option::None => Result::Err(LexError::UnterminatedComment),
        }
    } else {
        push_token(tokens, TokenKind::Divide, line, col, whole, Ghost(
            spec_tokenize_from(bytes@, i as int + 1, line as int, col as int + 1),
        ));
        Result::Ok((i + 1, line, col + 1))
    }
}

/// An operator byte that may pair with a following `=`: assignment and the
/// order comparisons.
fn lex_lookahead_eq(
    bytes: &Vec<u8>,
    tokens: &mut Vec<Token>,
    two: TokenKind,
    one: TokenKind,
    i: usize,
    line: usize,
    col: usize,
    whole: Ghost<Result<Seq<SpecToken>, LexError>>,
) -> (r: (usize, usize, usize))
    requires
        scan_inv(bytes@, old(tokens)@, i as int, line as int, col as int, whole@),
        i < bytes@.len(),
        bytes@[i as int] == 61 || bytes@[i as int] == 62 || bytes@[i as int] == 60,
        bytes@[i as int] == 61 ==> two@ == SpecTokenKind::Eq && one@ == SpecTokenKind::Assign,
        bytes@[i as int] == 62 ==> two@ == SpecTokenKind::Gte && one@ == SpecTokenKind::Gt,
        bytes@[i as int] == 60 ==> two@ == SpecTokenKind::Lte && one@ == SpecTokenKind::Lt,
    ensures
        scan_inv(bytes@, final(tokens)@, r.0 as int, r.1 as int, r.2 as int, whole@),
        i < r.0,
{
    if i + 1 < bytes.len() && bytes[i + 1] == 61 {
        push_token(tokens, two, line, col, whole, Ghost(
            spec_tokenize_from(bytes@, i as int + 2, line as int, col as int + 2),
        ));
        (i + 2, line, col + 2)
    } else {
        push_token(tokens, one, line, col, whole, Ghost(
            spec_tokenize_from(bytes@, i as int + 1, line as int, col as int + 1),
        ));
        (i + 1, line, col + 1)
    }
}

/// An operator byte that must pair with a fixed second byte: `!=`, `&&`,
/// `||`. Without its partner the scan fails.
fn lex_pair(
    bytes: &Vec<u8>,
    tokens: &mut Vec<Token>,
    second: u8,
    kind: TokenKind,
    err: LexError,
    i: usize,
    line: usize,
    col: usize,
    whole: Ghost<Result<Seq<SpecToken>, LexError>>,
) -> (r: Result<(usize, usize, usize), LexError>)
    requires
        scan_inv(bytes@, old(tokens)@, i as int, line as int, col as int, whole@),
        i < bytes@.len(),
        bytes@[i as int] == 33 || bytes@[i as int] == 38 || bytes@[i as int] == 124,
        bytes@[i as int] == 33 ==> second == 61 && kind@ == SpecTokenKind::Neq && err
            == LexError::MalformedNot,
        bytes@[i as int] == 38 ==> second == 38 && kind@ == SpecTokenKind::And && err
            == LexError::UnexpectedChar(38),
        bytes@[i as int] == 124 ==> second == 124 && kind@ == SpecTokenKind::Or && err
            == LexError::UnexpectedChar(124),
    ensures
        match r {
            Result::Ok((i2, l2, c2)) => scan_inv(
                bytes@,
                final(tokens)@,
                i2 as int,
                l2 as int,
                c2 as int,
                whole@,
            ) && i < i2,
            Result::Err(e) => whole@ == Result::<Seq<SpecToken>, LexError>::Err(e),
        },
{
    if i + 1 < bytes.len() && bytes[i + 1] == second {
        push_token(tokens, kind, line, col, whole, Ghost(
            spec_tokenize_from(bytes@, i as int + 2, line as int, col as int + 2),
        ));
        Result::Ok((i + 2, line, col + 2))
    } else {
        Result::Err(err)
    }
}

/// A numeric literal.
fn lex_number(
    bytes: &Vec<u8>,
    tokens: &mut Vec<Token>,
    i: usize,
    line: usize,
    col: usize,
    whole: Ghost<Result<Seq<SpecToken>, LexError>>,
) -> (r: Result<(usize, usize, usize), LexError>)
    requires
        scan_inv(bytes@, old(tokens)@, i as int, line as int, col as int, whole@),
        i < bytes@.len(),
        is_digit(bytes@[i as int]),
    ensures
        match r {
            Result::Ok((i2, l2, c2)) => scan_inv(
                bytes@,
                final(tokens)@,
                i2 as int,
                l2 as int,
                c2 as int,
                whole@,
            ) && i < i2,
            Result::Err(e) => whole@ == Result::<Seq<SpecToken>, LexError>::Err(e),
        },
{
    let j = scan_number_end_x(bytes, i + 1);
    proof {
        lemma_scan_number_end(bytes@, i + 1 as int);
    }
    match parse_number_slice(bytes, i, j) {
        Result::Ok(n) => {
            push_token(tokens, TokenKind::Number(n), line, col, whole, Ghost(
                spec_tokenize_from(
                    bytes@,
                    j as int,
                    line as int,
                    col as int + (j as int - i as int),
                ),
            ));
            Result::Ok((j, line, col + (j - i)))
        },
        Result::Err(e) => Result::Err(e),
    }
}

/// A string literal.
fn lex_string(
    bytes: &Vec<u8>,
    tokens: &mut Vec<Token>,
    i: usize,
    line: usize,
    col: usize,
    whole: Ghost<Result<Seq<SpecToken>, LexError>>,
) -> (r: Result<(usize, usize, usize), LexError>)
    requires
        scan_inv(bytes@, old(tokens)@, i as int, line as int, col as int, whole@),
        i < bytes@.len(),
        bytes@[i as int] == 34,
    ensures
        match r {
            Result::Ok((i2, l2, c2)) => scan_inv(
                bytes@,
                final(tokens)@,
                i2 as int,
                l2 as int,
                c2 as int,
                whole@,
            ) && i < i2,
            Result::Err(e) => whole@ == Result::<Seq<SpecToken>, LexError>::Err(e),
        },
{
    match scan_string_end_x(bytes, i, i + 1) {
        Option::None => Result::Err(LexError::UnterminatedString),
        Option::Some(j) => {
            let w = sub_vec(bytes, i + 1, j);
            match bytes_to_string(w) {
                Option::Some(s) => {
                    push_token(tokens, TokenKind::StrLit(s), line, col, whole, Ghost(
                        spec_tokenize_from(
                            bytes@,
                            j as int + 1,
                            line as int,
                            col as int + (j as int - i as int) + 1,
                        ),
                    ));
                    Result::Ok((j + 1, line, col + (j - i) + 1))
                },
                Option::None => Result::Err(LexError::InvalidUtf8),
            }
        },
    }
}

/// An identifier or keyword.
fn lex_word(
    bytes: &Vec<u8>,
    tokens: &mut Vec<Token>,
    i: usize,
    line: usize,
    col: usize,
    whole: Ghost<Result<Seq<SpecToken>, LexError>>,
) -> (r: Result<(usize, usize, usize), LexError>)
    requires
        scan_inv(bytes@, old(tokens)@, i as int, line as int, col as int, whole@),
        i < bytes@.len(),
        is_word_start(bytes@[i as int]),
    ensures
        match r {
            Result::Ok((i2, l2, c2)) => scan_inv(
                bytes@,
                final(tokens)@,
                i2 as int,
                l2 as int,
                c2 as int,
                whole@,
            ) && i < i2,
            Result::Err(e) => whole@ == Result::<Seq<SpecToken>, LexError>::Err(e),
        },
{
    let j = scan_word_end_x(bytes, i + 1);
    let w = sub_vec(bytes, i, j);
    match word_token(w) {
        Result::Ok(kind) => {
            push_token(tokens, kind, line, col, whole, Ghost(
                spec_tokenize_from(
                    bytes@,
                    j as int,
                    line as int,
                    col as int + (j as int - i as int),
                ),
            ));
            Result::Ok((j, line, col + (j - i)))
        },
        Result::Err(e) => Result::Err(e),
    }
}

/// Produces tokens; the scan itself is the associated `tokenize`.
pub struct Tokenizer {}

impl Tokenizer {
    /// A scanner has no state of its own.
    pub fn new() -> (t: Tokenizer) {
        Tokenizer {  }
    }

    /// Scans the whole source into tokens, ending with an end-of-input
    /// token, or stops at the first lexical error. The result is exactly
    /// the modelled scan of the source's UTF-8 bytes.
    pub fn tokenize(source: String) -> (r: Result<Vec<Token>, LexError>)
        requires
            4 * vstd::utf8::encode_utf8(source@).len() + 1 <= usize::MAX,
        ensures
            lex_matches(r, spec_tokenize(vstd::utf8::encode_utf8(source@))),
    {
        let bytes: Vec<u8> = source.as_str().as_bytes_vec();
        proof {
            assert(bytes@ == vstd::utf8::encode_utf8(source@));
        }
        Self::tokenize_bytes(&bytes)
    }

    /// Scans a byte sequence directly.
    pub fn tokenize_bytes(bytes: &Vec<u8>) -> (r: Result<Vec<Token>, LexError>)
        requires
            4 * bytes@.len() + 1 <= usize::MAX,
        ensures
            lex_matches(r, spec_tokenize(bytes@)),
    {
        let ghost whole = spec_tokenize(bytes@);
        let mut tokens: Vec<Token> = Vec::new();
        let mut i: usize = 0;
        let mut line: usize = 1;
        let mut col: usize = 1;
        while i < bytes.len()
            invariant
                whole == spec_tokenize(bytes@),
                scan_inv(bytes@, tokens@, i as int, line as int, col as int, whole),
            decreases bytes@.len() - i,
        {
            let b = bytes[i];
            let step: Result<(usize, usize, usize), LexError> = if b == 32 || b == 10 || b == 13
                || b == 9 {
                Result::Ok(lex_ws(bytes, i, line, col, Ghost(tokens@), Ghost(whole)))
            } else if let Option::Some(kind) = single_char_kind_x(b) {
                Result::Ok(lex_single(bytes, &mut tokens, kind, i, line, col, Ghost(whole)))
            } else if b == 47 {
                lex_slash(bytes, &mut tokens, i, line, col, Ghost(whole))
            } else if b == 61 {
                Result::Ok(
                    lex_lookahead_eq(
                        bytes,
                        &mut tokens,
                        TokenKind::Eq,
                        TokenKind::Assign,
                        i,
                        line,
                        col,
                        Ghost(whole),
                    ),
                )
            } else if b == 62 {
                Result::Ok(
                    lex_lookahead_eq(
                        bytes,
                        &mut tokens,
                        TokenKind::Gte,
                        TokenKind::Gt,
                        i,
                        line,
                        col,
                        Ghost(whole),
                    ),
                )
            } else if b == 60 {
                Result::Ok(
                    lex_lookahead_eq(
                        bytes,
                        &mut tokens,
                        TokenKind::Lte,
                        TokenKind::Lt,
                        i,
                        line,
                        col,
                        Ghost(whole),
                    ),
                )
            } else if b == 33 {
                lex_pair(
                    bytes,
                    &mut tokens,
                    61,
                    TokenKind::Neq,
                    LexError::MalformedNot,
                    i,
                    line,
                    col,
                    Ghost(whole),
                )
            } else if b == 38 {
                lex_pair(
                    bytes,
                    &mut tokens,
                    38,
                    TokenKind::And,
                    LexError::UnexpectedChar(38),
                    i,
                    line,
                    col,
                    Ghost(whole),
                )
            } else if b == 124 {
                lex_pair(
                    bytes,
                    &mut tokens,
                    124,
                    TokenKind::Or,
                    LexError::UnexpectedChar(124),
                    i,
                    line,
                    col,
                    Ghost(whole),
                )
            } else if b >= 48 && b <= 57 {
                lex_number(bytes, &mut tokens, i, line, col, Ghost(whole))
            } else if b == 34 {
                lex_string(bytes, &mut tokens, i, line, col, Ghost(whole))
            } else if (b >= 97 && b <= 122) || (b >= 65 && b <= 90) || b == 95 {
                lex_word(bytes, &mut tokens, i, line, col, Ghost(whole))
            } else {
                Result::Err(LexError::UnexpectedChar(b))
            };
            match step {
                Result::Ok((i2, l2, c2)) => {
                    i = i2;
                    line = l2;
                    col = c2;
                },
                Result::Err(e) => {
                    return Result::Err(e);
                },
            }
        }
        proof {
            assert(seq![
                SpecToken { kind: SpecTokenKind::Eof, line: line as int, col: col as int },
            ] + Seq::<SpecToken>::empty() =~= seq![
                SpecToken { kind: SpecTokenKind::Eof, line: line as int, col: col as int },
            ]);
        }
        push_token(&mut tokens, TokenKind::Eof, line, col, Ghost(whole), Ghost(
            Result::Ok(Seq::empty()),
        ));
        proof {
            assert(view_toks(tokens@) + Seq::<SpecToken>::empty() =~= view_toks(tokens@));
        }
        Result::Ok(tokens)
    }
}

/// Appends one token and carries the scan invariant across the step: when
/// the model's remaining scan emits exactly this token and then continues
/// as `rest1`, appending the token keeps the whole-scan equation.
fn push_token(
    tokens: &mut Vec<Token>,
    kind: TokenKind,
    line: usize,
    col: usize,
    whole: Ghost<Result<Seq<SpecToken>, LexError>>,
    rest1: Ghost<Result<Seq<SpecToken>, LexError>>,
)
    requires
        tok_app(
            view_toks(old(tokens)@),
            one_token(kind@, line as int, col as int, rest1@),
        ) == whole@,
    ensures
        tok_app(view_toks(final(tokens)@), rest1@) == whole@,
{
    let ghost before = tokens@;
    let ghost st = SpecToken { kind: kind@, line: line as int, col: col as int };
    tokens.push(Token { kind, line, col });
    proof {
        assert(view_toks(tokens@) =~= view_toks(before) + seq![st]);
        match rest1@ {
            Result::Ok(ts) => {
                assert((view_toks(before) + seq![st]) + ts =~= view_toks(before) + (
                seq![st] + ts));
            },
            Result::Err(_) => {},
        }
    }
}

} // verus!
