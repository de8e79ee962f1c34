//! Laws of the library, each stated over the mathematical models that the
//! executable functions are proved to follow.

use vstd::prelude::*;
use vstd::utf8::{is_leading_byte_width_1, valid_utf8};

use super::ast::{SpecExpr, expr_size, exprs_size};
use super::evaluator::{SpecEnv, SpecEvalError, SpecValue, spec_binary_op, spec_eval_args,
    spec_eval_expr};
use super::ast::BinaryOp;
use super::parser::{ParseError, spec_parse};
use super::tokenizer::{LexError, SpecToken, Token, is_digit, is_word_start, lex_matches,
    scan_number_end, scan_word_end, single_char_kind, spec_number_token, spec_tokenize,
    spec_tokenize_from, spec_word_token, view_toks};

verus! {

// ---------------------------------------------------------------------------
// Totality of the scan
// ---------------------------------------------------------------------------

/// A byte on which the scan can never fail: whitespace, a single-character
/// token, one of the operators that scan alone (`=`, `>`, `<`), a digit, or
/// a byte that begins an identifier. Left out are the bytes that can begin
/// a failing form: `/` (an unterminated block comment), `!`, `&`, `|` (a
/// missing partner byte), and `"` (an unterminated string literal).
pub open spec fn total_scan_byte(b: u8) -> bool {
    ||| b == 32
    ||| b == 10
    ||| b == 13
    ||| b == 9
    ||| single_char_kind(b) is Some
    ||| b == 61
    ||| b == 62
    ||| b == 60
    ||| is_digit(b)
    ||| is_word_start(b)
}

/// A sequence of bytes below 128 is valid UTF-8.
pub proof fn lemma_ascii_valid_utf8(s: Seq<u8>)
    requires
        forall|i: int| 0 <= i < s.len() ==> (#[trigger] s[i]) < 128,
    ensures
        valid_utf8(s),
    decreases s.len(),
{
    if s.len() != 0 {
        assert(is_leading_byte_width_1(s[0]));
        let rest = s.subrange(1, s.len() as int);
        assert(forall|i: int| 0 <= i < rest.len() ==> (#[trigger] rest[i]) < 128);
        lemma_ascii_valid_utf8(rest);
        assert(vstd::utf8::pop_first_scalar(s) =~= rest);
    }
}

/// Scanning any input made only of bytes on which the scan is total never
/// fails, provided every numeric literal in it is a well-formed number
/// (no dot, within the 64-bit signed range). An input such as `5 ! 3`
/// (a lone `!`) or `1.2.3` (dots in a literal) is excluded: those do fail.
#[verifier::rlimit(100)]
#[verifier::spinoff_prover]
pub proof fn theorem_tokenize_total(bytes: Seq<u8>)
    requires
        forall|i: int| 0 <= i < bytes.len() ==> total_scan_byte(#[trigger] bytes[i]),
        forall|i: int|
            0 <= i < bytes.len() && is_digit(#[trigger] bytes[i]) ==> spec_number_token(
                bytes.subrange(i, scan_number_end(bytes, i + 1)),
            ) is Ok,
    ensures
        spec_tokenize(bytes) is Ok,
{
    lemma_tokenize_total_from(bytes, 0, 1, 1);
}

proof fn lemma_tokenize_total_from(bytes: Seq<u8>, i: int, line: int, col: int)
    requires
        0 <= i,
        forall|m: int| 0 <= m < bytes.len() ==> total_scan_byte(#[trigger] bytes[m]),
        forall|m: int|
            0 <= m < bytes.len() && is_digit(#[trigger] bytes[m]) ==> spec_number_token(
                bytes.subrange(m, scan_number_end(bytes, m + 1)),
            ) is Ok,
    ensures
        spec_tokenize_from(bytes, i, line, col) is Ok,
    decreases bytes.len() - i,
{
    let len = bytes.len() as int;
    if i < len {
        let b = bytes[i];
        assert(total_scan_byte(b));
        if b == 32 || b == 10 || b == 13 || b == 9 {
            if b == 32 {
                lemma_tokenize_total_from(bytes, i + 1, line, col + 1);
            } else if b == 10 {
                lemma_tokenize_total_from(bytes, i + 1, line + 1, 1);
            } else if b == 13 {
                lemma_tokenize_total_from(bytes, i + 1, line, col);
            } else {
                lemma_tokenize_total_from(bytes, i + 1, line, col + 4);
            }
            lemma_total_step_ws(bytes, i, line, col);
        } else if single_char_kind(b) is Some {
            lemma_tokenize_total_from(bytes, i + 1, line, col + 1);
            lemma_total_step_single(bytes, i, line, col);
        } else if b == 61 || b == 62 || b == 60 {
            if i + 1 < len && bytes[i + 1] == 61 {
                lemma_tokenize_total_from(bytes, i + 2, line, col + 2);
            } else {
                lemma_tokenize_total_from(bytes, i + 1, line, col + 1);
            }
            lemma_total_step_cmp(bytes, i, line, col);
        } else if is_digit(b) {
            super::tokenizer::lemma_scan_number_end(bytes, i + 1);
            let j = scan_number_end(bytes, i + 1);
            lemma_tokenize_total_from(bytes, j, line, col + (j - i));
            lemma_total_step_number(bytes, i, line, col);
        } else {
            assert(is_word_start(b));
            super::tokenizer::lemma_scan_word_end(bytes, i + 1);
            let j = scan_word_end(bytes, i + 1);
            lemma_tokenize_total_from(bytes, j, line, col + (j - i));
            assert(forall|m: int| 0 <= m < bytes.len() ==> (#[trigger] bytes[m]) < 128) by {
                assert(forall|m: int|
                    0 <= m < bytes.len() ==> total_scan_byte(#[trigger] bytes[m]));
            }
            lemma_total_step_word(bytes, i, line, col);
        }
    }
}

/// One whitespace step of the scan keeps it failure-free.
#[verifier::spinoff_prover]
proof fn lemma_total_step_ws(bytes: Seq<u8>, i: int, line: int, col: int)
    requires
        0 <= i < bytes.len(),
        bytes[i] == 32 || bytes[i] == 10 || bytes[i] == 13 || bytes[i] == 9,
        bytes[i] == 32 ==> spec_tokenize_from(bytes, i + 1, line, col + 1) is Ok,
        bytes[i] == 10 ==> spec_tokenize_from(bytes, i + 1, line + 1, 1) is Ok,
        bytes[i] == 13 ==> spec_tokenize_from(bytes, i + 1, line, col) is Ok,
        bytes[i] == 9 ==> spec_tokenize_from(bytes, i + 1, line, col + 4) is Ok,
    ensures
        spec_tokenize_from(bytes, i, line, col) is Ok,
{
}

/// One single-character token keeps the scan failure-free.
#[verifier::spinoff_prover]
proof fn lemma_total_step_single(bytes: Seq<u8>, i: int, line: int, col: int)
    requires
        0 <= i < bytes.len(),
        single_char_kind(bytes[i]) is Some,
        spec_tokenize_from(bytes, i + 1, line, col + 1) is Ok,
    ensures
        spec_tokenize_from(bytes, i, line, col) is Ok,
{
}

/// One `=`, `>` or `<` token (with or without a following `=`) keeps the
/// scan failure-free.
#[verifier::spinoff_prover]
proof fn lemma_total_step_cmp(bytes: Seq<u8>, i: int, line: int, col: int)
    requires
        0 <= i < bytes.len(),
        bytes[i] == 61 || bytes[i] == 62 || bytes[i] == 60,
        i + 1 < bytes.len() && bytes[i + 1] == 61 ==> spec_tokenize_from(
            bytes,
            i + 2,
            line,
            col + 2,
        ) is Ok,
        !(i + 1 < bytes.len() && bytes[i + 1] == 61) ==> spec_tokenize_from(
            bytes,
            i + 1,
            line,
            col + 1,
        ) is Ok,
    ensures
        spec_tokenize_from(bytes, i, line, col) is Ok,
{
}

/// One well-formed numeric literal keeps the scan failure-free.
#[verifier::spinoff_prover]
proof fn lemma_total_step_number(bytes: Seq<u8>, i: int, line: int, col: int)
    requires
        0 <= i < bytes.len(),
        is_digit(bytes[i]),
        spec_number_token(bytes.subrange(i, scan_number_end(bytes, i + 1))) is Ok,
        spec_tokenize_from(
            bytes,
            scan_number_end(bytes, i + 1),
            line,
            col + (scan_number_end(bytes, i + 1) - i),
        ) is Ok,
    ensures
        spec_tokenize_from(bytes, i, line, col) is Ok,
{
    super::tokenizer::lemma_scan_number_end(bytes, i + 1);
}

/// One identifier or keyword made of bytes below 128 keeps the scan
/// failure-free.
#[verifier::spinoff_prover]
proof fn lemma_total_step_word(bytes: Seq<u8>, i: int, line: int, col: int)
    requires
        0 <= i < bytes.len(),
        is_word_start(bytes[i]),
        forall|m: int| 0 <= m < bytes.len() ==> (#[trigger] bytes[m]) < 128,
        spec_tokenize_from(
            bytes,
            scan_word_end(bytes, i + 1),
            line,
            col + (scan_word_end(bytes, i + 1) - i),
        ) is Ok,
    ensures
        spec_tokenize_from(bytes, i, line, col) is Ok,
{
    super::tokenizer::lemma_scan_word_end(bytes, i + 1);
    let j = scan_word_end(bytes, i + 1);
    let w = bytes.subrange(i, j);
    assert(forall|m: int| 0 <= m < w.len() ==> (#[trigger] w[m]) < 128) by {
        assert(forall|m: int| 0 <= m < w.len() ==> w[m] == bytes[i + m]);
    }
    lemma_ascii_valid_utf8(w);
    assert(spec_word_token(w) is Ok);
}

// ---------------------------------------------------------------------------
// Re-running the pipeline yields identical results
// ---------------------------------------------------------------------------

/// Any two token sequences that satisfy the scanner's contract for the same
/// source bytes are structurally identical: the scan keeps no hidden state
/// between runs.
pub proof fn theorem_tokenize_repeatable(
    bytes: Seq<u8>,
    r1: Result<Vec<Token>, LexError>,
    r2: Result<Vec<Token>, LexError>,
)
    requires
        lex_matches(r1, spec_tokenize(bytes)),
        lex_matches(r2, spec_tokenize(bytes)),
    ensures
        match (r1, r2) {
            (Result::Ok(t1), Result::Ok(t2)) => view_toks(t1@) == view_toks(t2@),
            (Result::Err(e1), Result::Err(e2)) => e1 == e2,
            _ => false,
        },
{
}

/// Any two trees that satisfy the parser's contract for structurally
/// identical token sequences are structurally identical: the parse keeps no
/// hidden state between runs.
pub proof fn theorem_parse_repeatable(
    toks1: Seq<SpecToken>,
    toks2: Seq<SpecToken>,
    r1: Result<Seq<super::ast::SpecStmt>, ParseError>,
    r2: Result<Seq<super::ast::SpecStmt>, ParseError>,
)
    requires
        toks1 == toks2,
        r1 == spec_parse(toks1),
        r2 == spec_parse(toks2),
    ensures
        r1 == r2,
{
}

// ---------------------------------------------------------------------------
// Call isolation
// ---------------------------------------------------------------------------

/// Evaluating any expression that succeeds leaves the variable bindings
/// exactly as they were: argument evaluation cannot bind, and a call
/// restores its snapshot, so only a top-level `let` can change a binding.
pub proof fn theorem_expr_preserves_variables(env: SpecEnv, e: SpecExpr, fuel: nat)
    ensures
        ({
            let (env2, r) = spec_eval_expr(env, e, fuel);
            r is Ok ==> env2.vars == env.vars
        }),
    decreases fuel, expr_size(e), 1int,
{
    let (env2, r) = spec_eval_expr(env, e, fuel);
    match e {
        SpecExpr::Binary { left, op, right } => {
            theorem_expr_preserves_variables(env, *left, fuel);
            let (env1, r1) = spec_eval_expr(env, *left, fuel);
            if r1 is Ok {
                theorem_expr_preserves_variables(env1, *right, fuel);
            }
        },
        SpecExpr::Unary { op, operand } => {
            theorem_expr_preserves_variables(env, *operand, fuel);
        },
        SpecExpr::Call { name, args } => {
            if env.fns.dom().contains(name) && args.len() == env.fns[name].params.len() {
                lemma_args_preserve_variables(env, args, 0, fuel);
            }
        },
        _ => {},
    }
}

/// Evaluating an argument list that succeeds leaves the variable bindings
/// exactly as they were.
proof fn lemma_args_preserve_variables(env: SpecEnv, args: Seq<SpecExpr>, i: int, fuel: nat)
    ensures
        ({
            let (env2, r) = spec_eval_args(env, args, i, fuel);
            r is Ok ==> env2.vars == env.vars
        }),
    decreases fuel, exprs_size(args, i), 0int,
{
    if 0 <= i < args.len() {
        theorem_expr_preserves_variables(env, args[i], fuel);
        let (env1, r1) = spec_eval_expr(env, args[i], fuel);
        if r1 is Ok {
            lemma_args_preserve_variables(env1, args, i + 1, fuel);
        }
    }
}

// ---------------------------------------------------------------------------
// Calls that must fail
// ---------------------------------------------------------------------------

/// Calling a defined function with the wrong number of arguments fails
/// with an arity error naming the expected and given counts, whatever the
/// arguments are.
pub proof fn theorem_call_arity(env: SpecEnv, name: Seq<char>, args: Seq<SpecExpr>, fuel: nat)
    requires
        env.fns.dom().contains(name),
        args.len() != env.fns[name].params.len(),
    ensures
        spec_eval_expr(env, SpecExpr::Call { name, args }, fuel) == (
            env,
            Result::<SpecValue, SpecEvalError>::Err(
                SpecEvalError::ArityMismatch {
                    name,
                    expected: env.fns[name].params.len() as int,
                    got: args.len() as int,
                },
            ),
        ),
{
}

/// Calling a name with no function definition fails with an
/// undefined-function error, whatever the arguments are.
pub proof fn theorem_call_undefined(env: SpecEnv, name: Seq<char>, args: Seq<SpecExpr>, fuel: nat)
    requires
        !env.fns.dom().contains(name),
    ensures
        spec_eval_expr(env, SpecExpr::Call { name, args }, fuel) == (
            env,
            Result::<SpecValue, SpecEvalError>::Err(SpecEvalError::UndefinedFunction(name)),
        ),
{
}

// ---------------------------------------------------------------------------
// Division by zero
// ---------------------------------------------------------------------------

/// Dividing any number by zero is a division-by-zero error, never a value.
pub proof fn theorem_division_by_zero(a: i64)
    ensures
        spec_binary_op(SpecValue::Number(a), BinaryOp::Div, SpecValue::Number(0)) == Result::<
            SpecValue,
            SpecEvalError,
        >::Err(SpecEvalError::DivisionByZero),
{
}

} // verus!
