//! The three interpreter stages and the pipeline that runs them in order:
//! source text to tokens, tokens to an abstract syntax tree, and the tree
//! to executed results.

pub mod ast;
pub mod evaluator;
pub mod laws;
pub mod parser;
pub mod tokenizer;

use vstd::prelude::*;

use ast::AST;
use evaluator::{EvalError, Evaluator, LogEntry, SpecEvalError, SpecLog, empty_env,
    spec_eval_program, view_log, CALL_DEPTH_LIMIT};
use parser::{ParseError, Parser, spec_parse};
use tokenizer::{LexError, Tokenizer, spec_tokenize};

verus! {

/// The first failure of a pipeline run, by stage.
#[derive(Debug, PartialEq)]
pub enum PipelineError {
    Lex(LexError),
    Parse(ParseError),
    Eval(EvalError),
}

/// The model of a pipeline failure.
#[verifier::ext_equal]
pub enum SpecPipelineError {
    Lex(LexError),
    Parse(ParseError),
    Eval(SpecEvalError),
}

impl View for PipelineError {
    type V = SpecPipelineError;

    open spec fn view(&self) -> SpecPipelineError {
        match *self {
            PipelineError::Lex(e) => SpecPipelineError::Lex(e),
            PipelineError::Parse(e) => SpecPipelineError::Parse(e),
            PipelineError::Eval(ref e) => SpecPipelineError::Eval(e@),
        }
    }
}

/// A successful run: the parsed program and the log of what a console
/// would show, one entry per executed statement effect.
#[derive(Debug)]
pub struct Execution {
    pub ast: AST,
    pub output: Vec<LogEntry>,
}

/// The model of the whole pipeline on the given source bytes: the parsed
/// statements and the log, or the first failure.
pub open spec fn spec_pipeline(bytes: Seq<u8>) -> Result<
    (Seq<ast::SpecStmt>, Seq<SpecLog>),
    SpecPipelineError,
> {
    match spec_tokenize(bytes) {
        Result::Err(le) => Result::Err(SpecPipelineError::Lex(le)),
        Result::Ok(ts) => match spec_parse(ts) {
            Result::Err(pe) => Result::Err(SpecPipelineError::Parse(pe)),
            Result::Ok(stmts) => {
                let (env, res) = spec_eval_program(empty_env(), stmts, 0, CALL_DEPTH_LIMIT as nat);
                match res {
                    Result::Err(ee) => Result::Err(SpecPipelineError::Eval(ee)),
                    Result::Ok(_) => Result::Ok((stmts, env.out)),
                }
            },
        },
    }
}

/// Entry point tying the three stages together.
pub struct Interpreter {}

impl Interpreter {
    /// Runs scanning, parsing and evaluation in sequence on the source
    /// text, surfacing the first failure, and returns the parsed program
    /// together with the log of what a console would show.
    pub fn execute_full_pipeline(source: String) -> (r: Result<Execution, PipelineError>)
        requires
            4 * vstd::utf8::encode_utf8(source@).len() + 1 <= usize::MAX,
        ensures
            match (r, spec_pipeline(vstd::utf8::encode_utf8(source@))) {
                (Result::Ok(ex), Result::Ok((stmts, out))) => ex.ast@ == stmts && view_log(
                    ex.output@,
                ) == out,
                (Result::Err(e), Result::Err(se)) => e@ == se,
                _ => false,
            },
    {
        let tokens = match Tokenizer::tokenize(source) {
            Result::Ok(ts) => ts,
            Result::Err(le) => {
                return Result::Err(PipelineError::Lex(le));
            },
        };
        let parser = Parser::new(tokens);
        let ast = match parser.parse() {
            Result::Ok(ast) => ast,
            Result::Err(pe) => {
                return Result::Err(PipelineError::Parse(pe));
            },
        };
        let evaluator = Evaluator::new();
        let (output, outcome) = evaluator.evaluate(&ast);
        match outcome {
            Result::Ok(_) => Result::Ok(Execution { ast, output }),
            Result::Err(ee) => Result::Err(PipelineError::Eval(ee)),
        }
    }
}

} // verus!
