//! Tree-walking evaluation: statements executed strictly in sequence over
//! an environment of variable bindings and function definitions, producing
//! runtime values and a log of what a console would show.
//!
//! Functions use dynamic scoping with save/restore rather than lexical
//! scoping: a call snapshots the whole variable map, binds the parameters
//! over it, runs the body, and restores the snapshot, so a body cannot
//! persist caller-visible variables. Function definitions made inside a
//! body do persist.
//!
//! Call nesting is bounded by `CALL_DEPTH_LIMIT`; a deeper call fails with
//! a recursion-limit error instead of exhausting the stack.
//!
//! The whole evaluation is specified by `spec_eval_stmt` and its
//! companions, and the executable evaluator is proved to produce exactly
//! the modelled values, environment and log.

use vstd::prelude::*;

use super::ast::{AST, BinaryOp, Expr, SpecExpr, SpecStmt, Statement, UnaryOp, clone_params,
    clone_stmts, view_exprs, view_params, view_stmts};
use vstd::string::StringExecFns;

verus! {

broadcast use vstd::std_specs::vec::group_vec_axioms;

/// The call-nesting depth the evaluator supports.
pub const CALL_DEPTH_LIMIT: u64 = 256;

/// A runtime value.
#[derive(Debug, PartialEq)]
pub enum Value {
    Number(i64),
    Str(String),
    Boolean(bool),
    Unit,
}

/// The model of a runtime value.
#[verifier::ext_equal]
pub enum SpecValue {
    Number(i64),
    Str(Seq<char>),
    Boolean(bool),
    Unit,
}

impl View for Value {
    type V = SpecValue;

    open spec fn view(&self) -> SpecValue {
        match *self {
            Value::Number(n) => SpecValue::Number(n),
            Value::Str(ref s) => SpecValue::Str(s@),
            Value::Boolean(b) => SpecValue::Boolean(b),
            Value::Unit => SpecValue::Unit,
        }
    }
}

/// The four kinds of runtime value, for naming operands in errors.
#[derive(Debug, Clone, Copy, PartialEq, Eq, Structural)]
pub enum ValueKind {
    Number,
    Str,
    Boolean,
    Unit,
}

pub open spec fn kind_of(v: SpecValue) -> ValueKind {
    match v {
        SpecValue::Number(_) => ValueKind::Number,
        SpecValue::Str(_) => ValueKind::Str,
        SpecValue::Boolean(_) => ValueKind::Boolean,
        SpecValue::Unit => ValueKind::Unit,
    }
}

/// Why evaluation failed.
#[derive(Debug, PartialEq)]
pub enum EvalError {
    /// An identifier with no binding in the variable map.
    UndefinedVariable(String),
    /// A call to a name with no function definition.
    UndefinedFunction(String),
    /// A call whose argument count differs from the parameter count.
    ArityMismatch { name: String, expected: usize, got: usize },
    /// A binary operator applied to operand kinds outside its table.
    InvalidBinaryOp { op: BinaryOp, left: ValueKind, right: ValueKind },
    /// A unary operator applied to an operand kind outside its table.
    InvalidUnaryOp { op: UnaryOp, operand: ValueKind },
    /// A division whose right operand is zero.
    DivisionByZero,
    /// A call nested deeper than the supported call depth.
    RecursionLimit,
}

/// The model of an evaluation error.
#[verifier::ext_equal]
pub enum SpecEvalError {
    UndefinedVariable(Seq<char>),
    UndefinedFunction(Seq<char>),
    ArityMismatch { name: Seq<char>, expected: int, got: int },
    InvalidBinaryOp { op: BinaryOp, left: ValueKind, right: ValueKind },
    InvalidUnaryOp { op: UnaryOp, operand: ValueKind },
    DivisionByZero,
    RecursionLimit,
}

impl View for EvalError {
    type V = SpecEvalError;

    open spec fn view(&self) -> SpecEvalError {
        match *self {
            EvalError::UndefinedVariable(ref n) => SpecEvalError::UndefinedVariable(n@),
            EvalError::UndefinedFunction(ref n) => SpecEvalError::UndefinedFunction(n@),
            EvalError::ArityMismatch { ref name, expected, got } => SpecEvalError::ArityMismatch {
                name: name@,
                expected: expected as int,
                got: got as int,
            },
            EvalError::InvalidBinaryOp { op, left, right } => SpecEvalError::InvalidBinaryOp {
                op,
                left,
                right,
            },
            EvalError::InvalidUnaryOp { op, operand } => SpecEvalError::InvalidUnaryOp {
                op,
                operand,
            },
            EvalError::DivisionByZero => SpecEvalError::DivisionByZero,
            EvalError::RecursionLimit => SpecEvalError::RecursionLimit,
        }
    }
}

/// The statement and expression forms whose behaviour is reserved for a
/// storage collaborator: evaluating one only reports that it is not
/// implemented yet.
#[derive(Debug, Clone, Copy, PartialEq, Eq, Structural)]
pub enum Placeholder {
    GetOp,
    SetOp,
    DeleteOp,
    WhereOp,
    FieldAccessOp,
}

/// One line of what a console would show, in execution order.
#[derive(Debug, PartialEq)]
pub enum LogEntry {
    /// A function definition was stored.
    Defined(String),
    /// A `let` bound a name to a value.
    Bound(String, Value),
    /// An expression statement's value.
    Printed(Value),
    /// A reserved form was reached and did nothing.
    NotImplemented(Placeholder),
}

/// The model of a log line.
#[verifier::ext_equal]
pub enum SpecLog {
    Defined(Seq<char>),
    Bound(Seq<char>, SpecValue),
    Printed(SpecValue),
    NotImplemented(Placeholder),
}

impl View for LogEntry {
    type V = SpecLog;

    open spec fn view(&self) -> SpecLog {
        match *self {
            LogEntry::Defined(ref n) => SpecLog::Defined(n@),
            LogEntry::Bound(ref n, ref v) => SpecLog::Bound(n@, v@),
            LogEntry::Printed(ref v) => SpecLog::Printed(v@),
            LogEntry::NotImplemented(p) => SpecLog::NotImplemented(p),
        }
    }
}

pub open spec fn view_log(s: Seq<LogEntry>) -> Seq<SpecLog> {
    Seq::new(s.len(), |i: int| s[i]@)
}

/// A stored function definition: its parameter names and its body.
#[derive(Debug)]
pub struct FnDef {
    pub params: Vec<String>,
    pub body: Vec<Statement>,
}

/// The model of a stored function definition.
#[verifier::ext_equal]
pub struct SpecFnDef {
    pub params: Seq<Seq<char>>,
    pub body: Seq<SpecStmt>,
}

impl View for FnDef {
    type V = SpecFnDef;

    open spec fn view(&self) -> SpecFnDef {
        SpecFnDef { params: view_params(self.params@), body: view_stmts(self.body@, 0) }
    }
}

// ---------------------------------------------------------------------------
// The environment: name-keyed association lists modelled as maps
// ---------------------------------------------------------------------------

/// The map an association list denotes. The entry nearest the front wins,
/// so pushing to the front is insertion.
pub open spec fn map_of<V: View>(s: Seq<(String, V)>) -> Map<Seq<char>, V::V>
    decreases s.len(),
{
    if s.len() == 0 {
        Map::empty()
    } else {
        map_of(s.drop_first()).insert(s[0].0@, s[0].1@)
    }
}

/// Entries before the first match do not affect the key looked up.
proof fn lemma_map_of_skip<V: View>(s: Seq<(String, V)>, k: Seq<char>, i: int)
    requires
        0 <= i <= s.len(),
        forall|j: int| 0 <= j < i ==> (#[trigger] s[j]).0@ != k,
    ensures
        map_of(s).dom().contains(k) <==> map_of(s.skip(i)).dom().contains(k),
        map_of(s).dom().contains(k) ==> map_of(s)[k] == map_of(s.skip(i))[k],
    decreases i,
{
    if i == 0 {
        assert(s.skip(0) =~= s);
    } else {
        assert(s.skip(1) =~= s.drop_first());
        lemma_map_of_skip(s.drop_first(), k, i - 1);
        assert(s.drop_first().skip(i - 1) =~= s.skip(i));
        assert(forall|j: int|
            0 <= j < i - 1 ==> (#[trigger] s.drop_first()[j]).0@ == s[j + 1].0@);
    }
}

/// The environment: function definitions, variable bindings, and the log.
pub struct Evaluator {
    pub functions: Vec<(String, FnDef)>,
    pub variables: Vec<(String, Value)>,
    pub output: Vec<LogEntry>,
}

/// The model of the environment.
#[verifier::ext_equal]
pub struct SpecEnv {
    pub fns: Map<Seq<char>, SpecFnDef>,
    pub vars: Map<Seq<char>, SpecValue>,
    pub out: Seq<SpecLog>,
}

impl View for Evaluator {
    type V = SpecEnv;

    open spec fn view(&self) -> SpecEnv {
        SpecEnv {
            fns: map_of(self.functions@),
            vars: map_of(self.variables@),
            out: view_log(self.output@),
        }
    }
}

/// The fresh environment.
pub open spec fn empty_env() -> SpecEnv {
    SpecEnv { fns: Map::empty(), vars: Map::empty(), out: Seq::empty() }
}

/// Looks a name up, returning the index of its binding.
fn assoc_find<V: View>(entries: &Vec<(String, V)>, name: &String) -> (r: Option<usize>)
    ensures
        match r {
            Option::Some(i) => i < entries@.len() && entries@[i as int].0@ == name@ && map_of(
                entries@,
            ).dom().contains(name@) && map_of(entries@)[name@] == entries@[i as int].1@,
            Option::None => !map_of(entries@).dom().contains(name@),
        },
{
    let mut i: usize = 0;
    while i < entries.len()
        invariant
            i <= entries@.len(),
            forall|j: int| 0 <= j < i ==> (#[trigger] entries@[j]).0@ != name@,
        decreases entries@.len() - i,
    {
        if entries[i].0.eq(name) {
            proof {
                lemma_map_of_skip(entries@, name@, i as int);
                assert(entries@.skip(i as int).drop_first() =~= entries@.skip(i as int + 1));
                assert(entries@.skip(i as int)[0] == entries@[i as int]);
            }
            return Option::Some(i);
        }
        i = i + 1;
    }
    proof {
        lemma_map_of_skip(entries@, name@, entries@.len() as int);
        assert(entries@.skip(entries@.len() as int) =~= Seq::<(String, V)>::empty());
    }
    Option::None
}

/// Binds a name, shadowing any earlier binding of it.
fn assoc_push<V: View>(entries: &mut Vec<(String, V)>, name: String, value: V)
    ensures
        map_of(final(entries)@) == map_of(old(entries)@).insert(name@, value@),
{
    entries.insert(0, (name, value));
    proof {
        assert(entries@.drop_first() =~= old(entries)@);
    }
}

// ---------------------------------------------------------------------------
// Operator semantics
// ---------------------------------------------------------------------------

/// Division truncated toward zero, wrapping on the one overflowing case
/// (the smallest value divided by minus one).
pub open spec fn spec_div(a: i64, b: i64) -> i64 {
    let x = a as int;
    let d = b as int;
    let q = if x == 0 {
        0int
    } else if x > 0 && d > 0 {
        x / d
    } else if x < 0 && d < 0 {
        (x * -1) / (d * -1)
    } else if x < 0 {
        ((x * -1) / d) * -1
    } else {
        (x / (d * -1)) * -1
    };
    if q < i64::MIN || q > i64::MAX {
        i64::MIN
    } else {
        q as i64
    }
}

/// The binary operator table. Operand kinds must match exactly on both
/// sides; there is no implicit coercion. Numbers add, subtract, multiply
/// (wrapping) and divide (erring on a zero divisor), and compare; strings
/// concatenate under `+`; booleans conjoin, disjoin and compare for
/// equality. Every other combination is an invalid operation.
pub open spec fn spec_binary_op(l: SpecValue, op: BinaryOp, r: SpecValue) -> Result<
    SpecValue,
    SpecEvalError,
> {
    match (l, op, r) {
        (SpecValue::Number(a), BinaryOp::Add, SpecValue::Number(b)) => Result::Ok(
            SpecValue::Number(vstd::wrapping::i64_specs::wrapping_add(a, b)),
        ),
        (SpecValue::Number(a), BinaryOp::Sub, SpecValue::Number(b)) => Result::Ok(
            SpecValue::Number(vstd::wrapping::i64_specs::wrapping_sub(a, b)),
        ),
        (SpecValue::Number(a), BinaryOp::Mul, SpecValue::Number(b)) => Result::Ok(
            SpecValue::Number(vstd::wrapping::i64_specs::wrapping_mul(a, b)),
        ),
        (SpecValue::Number(a), BinaryOp::Div, SpecValue::Number(b)) => {
            if b == 0 {
                Result::Err(SpecEvalError::DivisionByZero)
            } else {
                Result::Ok(SpecValue::Number(spec_div(a, b)))
            }
        },
        (SpecValue::Number(a), BinaryOp::Eq, SpecValue::Number(b)) => Result::Ok(
            SpecValue::Boolean(a == b),
        ),
        (SpecValue::Number(a), BinaryOp::Neq, SpecValue::Number(b)) => Result::Ok(
            SpecValue::Boolean(a != b),
        ),
        (SpecValue::Number(a), BinaryOp::Gt, SpecValue::Number(b)) => Result::Ok(
            SpecValue::Boolean(a > b),
        ),
        (SpecValue::Number(a), BinaryOp::Lt, SpecValue::Number(b)) => Result::Ok(
            SpecValue::Boolean(a < b),
        ),
        (SpecValue::Number(a), BinaryOp::Gte, SpecValue::Number(b)) => Result::Ok(
            SpecValue::Boolean(a >= b),
        ),
        (SpecValue::Number(a), BinaryOp::Lte, SpecValue::Number(b)) => Result::Ok(
            SpecValue::Boolean(a <= b),
        ),
        (SpecValue::Str(a), BinaryOp::Add, SpecValue::Str(b)) => Result::Ok(
            SpecValue::Str(a + b),
        ),
        (SpecValue::Boolean(a), BinaryOp::And, SpecValue::Boolean(b)) => Result::Ok(
            SpecValue::Boolean(a && b),
        ),
        (SpecValue::Boolean(a), BinaryOp::Or, SpecValue::Boolean(b)) => Result::Ok(
            SpecValue::Boolean(a || b),
        ),
        (SpecValue::Boolean(a), BinaryOp::Eq, SpecValue::Boolean(b)) => Result::Ok(
            SpecValue::Boolean(a == b),
        ),
        (SpecValue::Boolean(a), BinaryOp::Neq, SpecValue::Boolean(b)) => Result::Ok(
            SpecValue::Boolean(a != b),
        ),
        _ => Result::Err(
            SpecEvalError::InvalidBinaryOp { op, left: kind_of(l), right: kind_of(r) },
        ),
    }
}

/// The unary operator table: negation needs a number, logical not needs a
/// boolean.
pub open spec fn spec_unary_op(op: UnaryOp, v: SpecValue) -> Result<SpecValue, SpecEvalError> {
    match (op, v) {
        (UnaryOp::Neg, SpecValue::Number(n)) => Result::Ok(
            SpecValue::Number(vstd::wrapping::i64_specs::wrapping_sub(0, n)),
        ),
        (UnaryOp::Not, SpecValue::Boolean(b)) => Result::Ok(SpecValue::Boolean(!b)),
        _ => Result::Err(SpecEvalError::InvalidUnaryOp { op, operand: kind_of(v) }),
    }
}

/// Binding each parameter name to its argument, in order; a later duplicate
/// name shadows an earlier one.
pub open spec fn bind_params(
    vars: Map<Seq<char>, SpecValue>,
    params: Seq<Seq<char>>,
    vals: Seq<SpecValue>,
) -> Map<Seq<char>, SpecValue>
    decreases params.len(),
{
    if params.len() == 0 || vals.len() == 0 {
        vars
    } else {
        bind_params(
            vars.insert(params[0], vals[0]),
            params.drop_first(),
            vals.drop_first(),
        )
    }
}

// ---------------------------------------------------------------------------
// The model of evaluation
// ---------------------------------------------------------------------------

/// The model of evaluating one expression: the environment afterwards
/// (functions defined inside called bodies persist; the log grows) and the
/// value or the first error. `fuel` bounds the call-nesting depth.
pub open spec fn spec_eval_expr(env: SpecEnv, e: SpecExpr, fuel: nat) -> (SpecEnv, Result<
    SpecValue,
    SpecEvalError,
>)
    decreases fuel, super::ast::expr_size(e),
{
    match e {
        SpecExpr::Number(n) => (env, Result::Ok(SpecValue::Number(n))),
        SpecExpr::StrLit(s) => (env, Result::Ok(SpecValue::Str(s))),
        SpecExpr::Boolean(b) => (env, Result::Ok(SpecValue::Boolean(b))),
        SpecExpr::Identifier(name) => {
            if env.vars.dom().contains(name) {
                (env, Result::Ok(env.vars[name]))
            } else {
                (env, Result::Err(SpecEvalError::UndefinedVariable(name)))
            }
        },
        SpecExpr::Binary { left, op, right } => {
            let (env1, r1) = spec_eval_expr(env, *left, fuel);
            match r1 {
                Result::Err(er) => (env1, Result::Err(er)),
                Result::Ok(lv) => {
                    let (env2, r2) = spec_eval_expr(env1, *right, fuel);
                    match r2 {
                        Result::Err(er) => (env2, Result::Err(er)),
                        Result::Ok(rv) => (env2, spec_binary_op(lv, op, rv)),
                    }
                },
            }
        },
        SpecExpr::Unary { op, operand } => {
            let (env1, r1) = spec_eval_expr(env, *operand, fuel);
            match r1 {
                Result::Err(er) => (env1, Result::Err(er)),
                Result::Ok(v) => (env1, spec_unary_op(op, v)),
            }
        },
        SpecExpr::FieldAccess { field, object } => (
            SpecEnv {
                fns: env.fns,
                vars: env.vars,
                out: env.out.push(SpecLog::NotImplemented(Placeholder::FieldAccessOp)),
            },
            Result::Ok(SpecValue::Unit),
        ),
        SpecExpr::Call { name, args } => {
            if !env.fns.dom().contains(name) {
                (env, Result::Err(SpecEvalError::UndefinedFunction(name)))
            } else {
                let fd = env.fns[name];
                if args.len() != fd.params.len() {
                    (
                        env,
                        Result::Err(
                            SpecEvalError::ArityMismatch {
                                name,
                                expected: fd.params.len() as int,
                                got: args.len() as int,
                            },
                        ),
                    )
                } else {
                    let (env1, r1) = spec_eval_args(env, args, 0, fuel);
                    match r1 {
                        Result::Err(er) => (env1, Result::Err(er)),
                        Result::Ok(vals) => {
                            if fuel == 0 {
                                (env1, Result::Err(SpecEvalError::RecursionLimit))
                            } else {
                                let snapshot = env1.vars;
                                let env2 = SpecEnv {
                                    fns: env1.fns,
                                    vars: bind_params(env1.vars, fd.params, vals),
                                    out: env1.out,
                                };
                                let (env3, r3) = spec_eval_stmts(
                                    env2,
                                    fd.body,
                                    0,
                                    (fuel - 1) as nat,
                                );
                                match r3 {
                                    Result::Err(er) => (env3, Result::Err(er)),
                                    Result::Ok(v) => (
                                        SpecEnv { fns: env3.fns, vars: snapshot, out: env3.out },
                                        Result::Ok(v),
                                    ),
                                }
                            }
                        },
                    }
                }
            }
        },
    }
}

/// The model of evaluating an argument list left to right.
pub open spec fn spec_eval_args(env: SpecEnv, args: Seq<SpecExpr>, i: int, fuel: nat) -> (
    SpecEnv,
    Result<Seq<SpecValue>, SpecEvalError>,
)
    decreases fuel, super::ast::exprs_size(args, i),
{
    if i < 0 || i >= args.len() {
        (env, Result::Ok(Seq::empty()))
    } else {
        let (env1, r1) = spec_eval_expr(env, args[i], fuel);
        match r1 {
            Result::Err(er) => (env1, Result::Err(er)),
            Result::Ok(v) => {
                let (env2, r2) = spec_eval_args(env1, args, i + 1, fuel);
                match r2 {
                    Result::Err(er) => (env2, Result::Err(er)),
                    Result::Ok(rest) => (env2, Result::Ok(seq![v] + rest)),
                }
            },
        }
    }
}

/// The model of evaluating one statement.
pub open spec fn spec_eval_stmt(env: SpecEnv, s: SpecStmt, fuel: nat) -> (SpecEnv, Result<
    SpecValue,
    SpecEvalError,
>)
    decreases fuel, super::ast::stmt_size(s),
{
    match s {
        SpecStmt::FuncDef { name, params, body } => (
            SpecEnv {
                fns: env.fns.insert(name, SpecFnDef { params, body }),
                vars: env.vars,
                out: env.out.push(SpecLog::Defined(name)),
            },
            Result::Ok(SpecValue::Unit),
        ),
        SpecStmt::Expr(e) => {
            let (env1, r1) = spec_eval_expr(env, e, fuel);
            match r1 {
                Result::Err(er) => (env1, Result::Err(er)),
                Result::Ok(v) => (
                    SpecEnv {
                        fns: env1.fns,
                        vars: env1.vars,
                        out: env1.out.push(SpecLog::Printed(v)),
                    },
                    Result::Ok(v),
                ),
            }
        },
        SpecStmt::Let { name, value } => {
            let (env1, r1) = spec_eval_expr(env, value, fuel);
            match r1 {
                Result::Err(er) => (env1, Result::Err(er)),
                Result::Ok(v) => (
                    SpecEnv {
                        fns: env1.fns,
                        vars: env1.vars.insert(name, v),
                        out: env1.out.push(SpecLog::Bound(name, v)),
                    },
                    Result::Ok(v),
                ),
            }
        },
        SpecStmt::Get { field, filter } => (
            SpecEnv {
                fns: env.fns,
                vars: env.vars,
                out: env.out.push(SpecLog::NotImplemented(Placeholder::GetOp)),
            },
            Result::Ok(SpecValue::Unit),
        ),
        SpecStmt::SetKey { field, key, value } => (
            SpecEnv {
                fns: env.fns,
                vars: env.vars,
                out: env.out.push(SpecLog::NotImplemented(Placeholder::SetOp)),
            },
            Result::Ok(SpecValue::Unit),
        ),
        SpecStmt::Delete { field, key } => (
            SpecEnv {
                fns: env.fns,
                vars: env.vars,
                out: env.out.push(SpecLog::NotImplemented(Placeholder::DeleteOp)),
            },
            Result::Ok(SpecValue::Unit),
        ),
        SpecStmt::Where { condition } => (
            SpecEnv {
                fns: env.fns,
                vars: env.vars,
                out: env.out.push(SpecLog::NotImplemented(Placeholder::WhereOp)),
            },
            Result::Ok(SpecValue::Unit),
        ),
    }
}

/// The model of running a statement list in order, keeping the value of
/// the last executed statement (the unit value for an empty list).
pub open spec fn spec_eval_stmts(env: SpecEnv, ss: Seq<SpecStmt>, i: int, fuel: nat) -> (
    SpecEnv,
    Result<SpecValue, SpecEvalError>,
)
    decreases fuel, super::ast::stmts_size(ss, i),
{
    if i < 0 || i >= ss.len() {
        (env, Result::Ok(SpecValue::Unit))
    } else {
        let (env1, r1) = spec_eval_stmt(env, ss[i], fuel);
        match r1 {
            Result::Err(er) => (env1, Result::Err(er)),
            Result::Ok(v) => {
                if i + 1 >= ss.len() {
                    (env1, Result::Ok(v))
                } else {
                    spec_eval_stmts(env1, ss, i + 1, fuel)
                }
            },
        }
    }
}

/// The model of executing a whole program: each top-level statement in
/// order, each with the full call-depth budget, stopped by the first error.
pub open spec fn spec_eval_program(env: SpecEnv, ss: Seq<SpecStmt>, i: int, fuel: nat) -> (
    SpecEnv,
    Result<(), SpecEvalError>,
)
    decreases ss.len() - i,
{
    if i < 0 || i >= ss.len() {
        (env, Result::Ok(()))
    } else {
        let (env1, r1) = spec_eval_stmt(env, ss[i], fuel);
        match r1 {
            Result::Err(er) => (env1, Result::Err(er)),
            Result::Ok(_) => spec_eval_program(env1, ss, i + 1, fuel),
        }
    }
}

// ---------------------------------------------------------------------------
// The executable evaluator
// ---------------------------------------------------------------------------

/// Copies a value; the copy has the same model.
pub fn clone_value(v: &Value) -> (r: Value)
    ensures
        r@ == v@,
{
    match v {
        Value::Number(n) => Value::Number(*n),
        Value::Str(s) => Value::Str(s.clone()),
        Value::Boolean(b) => Value::Boolean(*b),
        Value::Unit => Value::Unit,
    }
}

/// Element-wise equal association lists denote the same map.
proof fn lemma_map_of_pointwise<V: View>(a: Seq<(String, V)>, b: Seq<(String, V)>)
    requires
        a.len() == b.len(),
        forall|j: int|
            0 <= j < a.len() ==> (#[trigger] a[j]).0@ == b[j].0@ && a[j].1@ == b[j].1@,
    ensures
        map_of(a) == map_of(b),
    decreases a.len(),
{
    if a.len() > 0 {
        assert(forall|j: int|
            0 <= j < a.drop_first().len() ==> (#[trigger] a.drop_first()[j]).0@ == a[j + 1].0@
                && a.drop_first()[j].1@ == a[j + 1].1@);
        assert(forall|j: int|
            0 <= j < b.drop_first().len() ==> (#[trigger] b.drop_first()[j]).0@ == b[j + 1].0@
                && b.drop_first()[j].1@ == b[j + 1].1@);
        lemma_map_of_pointwise(a.drop_first(), b.drop_first());
    }
}

/// Copies the variable bindings; the copy denotes the same map.
fn clone_var_entries(v: &Vec<(String, Value)>) -> (r: Vec<(String, Value)>)
    ensures
        map_of(r@) == map_of(v@),
{
    let mut r: Vec<(String, Value)> = Vec::new();
    let mut i: usize = 0;
    while i < v.len()
        invariant
            i <= v@.len(),
            r@.len() == i,
            forall|j: int|
                0 <= j < i ==> (#[trigger] r@[j]).0@ == v@[j].0@ && r@[j].1@ == v@[j].1@,
        decreases v@.len() - i,
    {
        let pair = &v[i];
        r.push((pair.0.clone(), clone_value(&pair.1)));
        i = i + 1;
    }
    proof {
        lemma_map_of_pointwise(r@, v@);
    }
    r
}

/// Appends one log line.
fn push_log(out: &mut Vec<LogEntry>, entry: LogEntry)
    ensures
        view_log(final(out)@) == view_log(old(out)@).push(entry@),
{
    let ghost e = entry@;
    out.push(entry);
    proof {
        assert(view_log(out@) =~= view_log(old(out)@).push(e));
    }
}

pub open spec fn view_vals(s: Seq<Value>) -> Seq<SpecValue> {
    Seq::new(s.len(), |i: int| s[i]@)
}

/// Whether an executable expression step leaves exactly the modelled
/// environment and returns exactly the modelled outcome.
pub open spec fn expr_outcome_matches(
    pre: SpecEnv,
    e: SpecExpr,
    fuel: nat,
    env_after: SpecEnv,
    r: Result<Value, EvalError>,
) -> bool {
    let (env2, res) = spec_eval_expr(pre, e, fuel);
    env_after == env2 && match (r, res) {
        (Result::Ok(v), Result::Ok(sv)) => v@ == sv,
        (Result::Err(er), Result::Err(se)) => er@ == se,
        _ => false,
    }
}

/// As `expr_outcome_matches`, for one statement.
pub open spec fn stmt_outcome_matches(
    pre: SpecEnv,
    s: SpecStmt,
    fuel: nat,
    env_after: SpecEnv,
    r: Result<Value, EvalError>,
) -> bool {
    let (env2, res) = spec_eval_stmt(pre, s, fuel);
    env_after == env2 && match (r, res) {
        (Result::Ok(v), Result::Ok(sv)) => v@ == sv,
        (Result::Err(er), Result::Err(se)) => er@ == se,
        _ => false,
    }
}

impl Evaluator {
    /// A fresh environment: no functions, no variables, an empty log.
    pub fn new() -> (e: Evaluator)
        ensures
            e@ == empty_env(),
    {
        let e = Evaluator { functions: Vec::new(), variables: Vec::new(), output: Vec::new() };
        proof {
            assert(e@ =~= empty_env());
        }
        e
    }

    /// Applies the binary operator table to two values.
    fn eval_binary_op(&self, left: &Value, op: BinaryOp, right: &Value) -> (r: Result<
        Value,
        EvalError,
    >)
        ensures
            match (r, spec_binary_op(left@, op, right@)) {
                (Result::Ok(v), Result::Ok(sv)) => v@ == sv,
                (Result::Err(er), Result::Err(se)) => er@ == se,
                _ => false,
            },
    {
        match (left, op, right) {
            (Value::Number(a), BinaryOp::Add, Value::Number(b)) => Result::Ok(
                Value::Number(a.wrapping_add(*b)),
            ),
            (Value::Number(a), BinaryOp::Sub, Value::Number(b)) => Result::Ok(
                Value::Number(a.wrapping_sub(*b)),
            ),
            (Value::Number(a), BinaryOp::Mul, Value::Number(b)) => Result::Ok(
                Value::Number(a.wrapping_mul(*b)),
            ),
            (Value::Number(a), BinaryOp::Div, Value::Number(b)) => {
                if *b == 0 {
                    Result::Err(EvalError::DivisionByZero)
                } else {
                    match a.checked_div(*b) {
                        Option::Some(q) => Result::Ok(Value::Number(q)),
                        Option::None => Result::Ok(Value::Number(i64::MIN)),
                    }
                }
            },
            (Value::Number(a), BinaryOp::Eq, Value::Number(b)) => Result::Ok(
                Value::Boolean(*a == *b),
            ),
            (Value::Number(a), BinaryOp::Neq, Value::Number(b)) => Result::Ok(
                Value::Boolean(*a != *b),
            ),
            (Value::Number(a), BinaryOp::Gt, Value::Number(b)) => Result::Ok(
                Value::Boolean(*a > *b),
            ),
            (Value::Number(a), BinaryOp::Lt, Value::Number(b)) => Result::Ok(
                Value::Boolean(*a < *b),
            ),
            (Value::Number(a), BinaryOp::Gte, Value::Number(b)) => Result::Ok(
                Value::Boolean(*a >= *b),
            ),
            (Value::Number(a), BinaryOp::Lte, Value::Number(b)) => Result::Ok(
                Value::Boolean(*a <= *b),
            ),
            (Value::Str(a), BinaryOp::Add, Value::Str(b)) => Result::Ok(
                Value::Str(a.clone().concat(b.as_str())),
            ),
            (Value::Boolean(a), BinaryOp::And, Value::Boolean(b)) => Result::Ok(
                Value::Boolean(*a && *b),
            ),
            (Value::Boolean(a), BinaryOp::Or, Value::Boolean(b)) => Result::Ok(
                Value::Boolean(*a || *b),
            ),
            (Value::Boolean(a), BinaryOp::Eq, Value::Boolean(b)) => Result::Ok(
                Value::Boolean(*a == *b),
            ),
            (Value::Boolean(a), BinaryOp::Neq, Value::Boolean(b)) => Result::Ok(
                Value::Boolean(*a != *b),
            ),
            _ => Result::Err(
                EvalError::InvalidBinaryOp {
                    op,
                    left: value_kind(left),
                    right: value_kind(right),
                },
            ),
        }
    }

    /// Applies the unary operator table to a value.
    fn eval_unary_op(&self, op: UnaryOp, operand: &Value) -> (r: Result<Value, EvalError>)
        ensures
            match (r, spec_unary_op(op, operand@)) {
                (Result::Ok(v), Result::Ok(sv)) => v@ == sv,
                (Result::Err(er), Result::Err(se)) => er@ == se,
                _ => false,
            },
    {
        match (op, operand) {
            (UnaryOp::Neg, Value::Number(n)) => Result::Ok(Value::Number((0i64).wrapping_sub(*n))),
            (UnaryOp::Not, Value::Boolean(b)) => Result::Ok(Value::Boolean(!*b)),
            _ => Result::Err(EvalError::InvalidUnaryOp { op, operand: value_kind(operand) }),
        }
    }

    /// Evaluates one expression.
    #[verifier::rlimit(100)]
    #[verifier::spinoff_prover]
    fn eval_expr(&mut self, e: &Expr, fuel: u64) -> (r: Result<Value, EvalError>)
        ensures
            expr_outcome_matches(old(self)@, e@, fuel as nat, final(self)@, r),
        decreases fuel, super::ast::expr_size(e@), 1int,
    {
        match e {
            Expr::Number(n) => Result::Ok(Value::Number(*n)),
            Expr::StrLit(s) => Result::Ok(Value::Str(s.clone())),
            Expr::Boolean(b) => Result::Ok(Value::Boolean(*b)),
            Expr::Identifier(name) => {
                match assoc_find(&self.variables, name) {
                    Option::Some(i) => Result::Ok(clone_value(&self.variables[i].1)),
                    Option::None => Result::Err(EvalError::UndefinedVariable(name.clone())),
                }
            },
            Expr::Binary { left, op, right } => {
                let lv = match self.eval_expr(left, fuel) {
                    Result::Ok(v) => v,
                    Result::Err(er) => {
                        return Result::Err(er);
                    },
                };
                let rv = match self.eval_expr(right, fuel) {
                    Result::Ok(v) => v,
                    Result::Err(er) => {
                        return Result::Err(er);
                    },
                };
                self.eval_binary_op(&lv, *op, &rv)
            },
            Expr::Unary { op, operand } => {
                let v = match self.eval_expr(operand, fuel) {
                    Result::Ok(v) => v,
                    Result::Err(er) => {
                        return Result::Err(er);
                    },
                };
                self.eval_unary_op(*op, &v)
            },
            Expr::FieldAccess { field, object } => {
                push_log(
                    &mut self.output,
                    LogEntry::NotImplemented(Placeholder::FieldAccessOp),
                );
                Result::Ok(Value::Unit)
            },
            Expr::Call { name, args } => self.eval_call(name, args, fuel),
        }
    }

    /// Evaluates a call: looks the function up, checks the arity, evaluates
    /// the arguments in the caller's environment, snapshots the variable
    /// map, binds the parameters, runs the body, and restores the snapshot.
    #[verifier::rlimit(100)]
    #[verifier::spinoff_prover]
    fn eval_call(&mut self, name: &String, args: &Vec<Expr>, fuel: u64) -> (r: Result<
        Value,
        EvalError,
    >)
        ensures
            expr_outcome_matches(
                old(self)@,
                SpecExpr::Call { name: name@, args: view_exprs(args@, 0) },
                fuel as nat,
                final(self)@,
                r,
            ),
        decreases fuel, 1 + super::ast::exprs_size(view_exprs(args@, 0), 0), 0int,
    {
        let ghost eargs = view_exprs(args@, 0);
        proof {
            super::ast::lemma_view_exprs_index(args@, 0);
        }
        let idx = match assoc_find(&self.functions, name) {
            Option::Some(i) => i,
            Option::None => {
                return Result::Err(EvalError::UndefinedFunction(name.clone()));
            },
        };
        let params = clone_params(&self.functions[idx].1.params);
        let body = clone_stmts(&self.functions[idx].1.body);
        let ghost fd = old(self)@.fns[name@];
        if args.len() != params.len() {
            return Result::Err(
                EvalError::ArityMismatch {
                    name: name.clone(),
                    expected: params.len(),
                    got: args.len(),
                },
            );
        }
        let vals = match self.eval_args(args, fuel) {
            Result::Ok(vs) => vs,
            Result::Err(er) => {
                return Result::Err(er);
            },
        };
        if fuel == 0 {
            return Result::Err(EvalError::RecursionLimit);
        }
        let ghost env_args = self@;
        let ghost svals = view_vals(vals@);
        let saved = clone_var_entries(&self.variables);
        let mut k: usize = 0;
        proof {
            assert(fd.params.skip(0) =~= fd.params);
            assert(svals.skip(0) =~= svals);
        }
        while k < params.len()
            invariant
                k <= params@.len(),
                params@.len() == vals@.len(),
                view_params(params@) == fd.params,
                fd.params.len() == params@.len(),
                svals == view_vals(vals@),
                svals.len() == vals@.len(),
                self@.fns == env_args.fns,
                self@.out == env_args.out,
                bind_params(env_args.vars, fd.params, svals) == bind_params(
                    map_of(self.variables@),
                    fd.params.skip(k as int),
                    svals.skip(k as int),
                ),
            decreases params@.len() - k,
        {
            let ghost pk = fd.params.skip(k as int);
            let ghost vk = svals.skip(k as int);
            proof {
                assert(pk[0] == fd.params[k as int]);
                assert(fd.params[k as int] == params@[k as int]@);
                assert(vk[0] == svals[k as int]);
                assert(svals[k as int] == vals@[k as int]@);
                assert(pk.drop_first() =~= fd.params.skip(k as int + 1));
                assert(vk.drop_first() =~= svals.skip(k as int + 1));
            }
            assoc_push(&mut self.variables, params[k].clone(), clone_value(&vals[k]));
            k = k + 1;
        }
        proof {
            assert(fd.params.skip(params@.len() as int) =~= Seq::<Seq<char>>::empty());
            assert(svals.skip(params@.len() as int) =~= Seq::<SpecValue>::empty());
        }
        let result = match self.run_body(&body, fuel - 1) {
            Result::Ok(v) => v,
            Result::Err(er) => {
                return Result::Err(er);
            },
        };
        self.variables = saved;
        Result::Ok(result)
    }

    /// Evaluates an argument list left to right in the current environment.
    #[verifier::rlimit(100)]
    #[verifier::spinoff_prover]
    fn eval_args(&mut self, args: &Vec<Expr>, fuel: u64) -> (r: Result<Vec<Value>, EvalError>)
        ensures
            ({
                let (env2, res) = spec_eval_args(
                    old(self)@,
                    view_exprs(args@, 0),
                    0,
                    fuel as nat,
                );
                final(self)@ == env2 && match (r, res) {
                    (Result::Ok(vs), Result::Ok(svs)) => view_vals(vs@) == svs && vs@.len()
                        == args@.len(),
                    (Result::Err(er), Result::Err(se)) => er@ == se,
                    _ => false,
                }
            }),
        decreases fuel, super::ast::exprs_size(view_exprs(args@, 0), 0), 0int,
    {
        let ghost eargs = view_exprs(args@, 0);
        proof {
            super::ast::lemma_view_exprs_index(args@, 0);
        }
        let mut vals: Vec<Value> = Vec::new();
        let mut j: usize = 0;
        proof {
            lemma_vals_app_empty(spec_eval_args(old(self)@, eargs, 0, fuel as nat));
            assert(view_vals(vals@) =~= Seq::<SpecValue>::empty());
        }
        loop
            invariant
                j <= args@.len(),
                vals@.len() == j,
                eargs == view_exprs(args@, 0),
                eargs.len() == args@.len(),
                forall|m: int| 0 <= m < args@.len() ==> eargs[m] == (#[trigger] args@[m])@,
                spec_eval_args(old(self)@, eargs, 0, fuel as nat) == vals_app(
                    view_vals(vals@),
                    spec_eval_args(self@, eargs, j as int, fuel as nat),
                ),
            ensures
                j == args@.len(),
                spec_eval_args(old(self)@, eargs, 0, fuel as nat) == (
                    self@,
                    Result::<Seq<SpecValue>, SpecEvalError>::Ok(view_vals(vals@)),
                ),
            decreases args@.len() - j,
        {
            if j < args.len() {
                proof {
                    super::ast::lemma_exprs_size_ge(eargs, 0, j as int);
                }
                let v = match self.eval_expr(&args[j], fuel) {
                    Result::Ok(v) => v,
                    Result::Err(er) => {
                        return Result::Err(er);
                    },
                };
                let ghost vals_before = vals@;
                let ghost v_v = v@;
                vals.push(v);
                proof {
                    assert(view_vals(vals@) =~= view_vals(vals_before) + seq![v_v]);
                    lemma_vals_app_assoc(
                        view_vals(vals_before),
                        v_v,
                        spec_eval_args(self@, eargs, j as int + 1, fuel as nat),
                    );
                }
                j = j + 1;
            } else {
                proof {
                    assert(view_vals(vals@) + Seq::<SpecValue>::empty() =~= view_vals(vals@));
                }
                break;
            }
        }
        Result::Ok(vals)
    }

    /// Runs a statement list in order, keeping the last statement's value.
    #[verifier::rlimit(100)]
    #[verifier::spinoff_prover]
    fn run_body(&mut self, body: &Vec<Statement>, fuel: u64) -> (r: Result<Value, EvalError>)
        ensures
            ({
                let (env2, res) = spec_eval_stmts(
                    old(self)@,
                    view_stmts(body@, 0),
                    0,
                    fuel as nat,
                );
                final(self)@ == env2 && match (r, res) {
                    (Result::Ok(v), Result::Ok(sv)) => v@ == sv,
                    (Result::Err(er), Result::Err(se)) => er@ == se,
                    _ => false,
                }
            }),
        decreases fuel, super::ast::stmts_size(view_stmts(body@, 0), 0), 0int,
    {
        let ghost sbody = view_stmts(body@, 0);
        proof {
            super::ast::lemma_view_stmts_index(body@, 0);
        }
        let mut result = Value::Unit;
        let mut k2: usize = 0;
        while k2 < body.len()
            invariant
                k2 <= body@.len(),
                sbody == view_stmts(body@, 0),
                sbody.len() == body@.len(),
                forall|m: int| 0 <= m < body@.len() ==> sbody[m] == (#[trigger] body@[m])@,
                if k2 == body@.len() {
                    spec_eval_stmts(old(self)@, sbody, 0, fuel as nat) == (
                        self@,
                        Result::<SpecValue, SpecEvalError>::Ok(result@),
                    )
                } else {
                    spec_eval_stmts(old(self)@, sbody, 0, fuel as nat) == spec_eval_stmts(
                        self@,
                        sbody,
                        k2 as int,
                        fuel as nat,
                    )
                },
            decreases body@.len() - k2,
        {
            proof {
                super::ast::lemma_stmts_size_ge(sbody, 0, k2 as int);
            }
            match self.eval_statement(&body[k2], fuel) {
                Result::Ok(v) => {
                    result = v;
                },
                Result::Err(er) => {
                    return Result::Err(er);
                },
            }
            k2 = k2 + 1;
        }
        Result::Ok(result)
    }

    /// Evaluates one statement.
    #[verifier::rlimit(100)]
    #[verifier::spinoff_prover]
    fn eval_statement(&mut self, stmt: &Statement, fuel: u64) -> (r: Result<Value, EvalError>)
        ensures
            stmt_outcome_matches(old(self)@, stmt@, fuel as nat, final(self)@, r),
        decreases fuel, super::ast::stmt_size(stmt@), 1int,
    {
        match stmt {
            Statement::FuncDef { name, params, body } => {
                let fd = FnDef { params: clone_params(params), body: clone_stmts(body) };
                assoc_push(&mut self.functions, name.clone(), fd);
                push_log(&mut self.output, LogEntry::Defined(name.clone()));
                Result::Ok(Value::Unit)
            },
            Statement::Expr(e) => {
                let v = match self.eval_expr(e, fuel) {
                    Result::Ok(v) => v,
                    Result::Err(er) => {
                        return Result::Err(er);
                    },
                };
                push_log(&mut self.output, LogEntry::Printed(clone_value(&v)));
                Result::Ok(v)
            },
            Statement::Let { name, value } => {
                let v = match self.eval_expr(value, fuel) {
                    Result::Ok(v) => v,
                    Result::Err(er) => {
                        return Result::Err(er);
                    },
                };
                assoc_push(&mut self.variables, name.clone(), clone_value(&v));
                push_log(
                    &mut self.output,
                    LogEntry::Bound(name.clone(), clone_value(&v)),
                );
                Result::Ok(v)
            },
            Statement::Get { field, filter } => {
                push_log(&mut self.output, LogEntry::NotImplemented(Placeholder::GetOp));
                Result::Ok(Value::Unit)
            },
            Statement::SetKey { field, key, value } => {
                push_log(&mut self.output, LogEntry::NotImplemented(Placeholder::SetOp));
                Result::Ok(Value::Unit)
            },
            Statement::Delete { field, key } => {
                push_log(&mut self.output, LogEntry::NotImplemented(Placeholder::DeleteOp));
                Result::Ok(Value::Unit)
            },
            Statement::Where { condition } => {
                push_log(&mut self.output, LogEntry::NotImplemented(Placeholder::WhereOp));
                Result::Ok(Value::Unit)
            },
        }
    }

    /// Executes each top-level statement in order, each with the full
    /// call-depth budget, and returns the log of what a console would show
    /// together with the first error, if any.
    #[verifier::rlimit(100)]
    #[verifier::spinoff_prover]
    pub fn evaluate(self, ast: &AST) -> (r: (Vec<LogEntry>, Result<(), EvalError>))
        ensures
            ({
                let (env2, res) = spec_eval_program(
                    self@,
                    ast@,
                    0,
                    CALL_DEPTH_LIMIT as nat,
                );
                view_log(r.0@) == env2.out && match (r.1, res) {
                    (Result::Ok(()), Result::Ok(())) => true,
                    (Result::Err(er), Result::Err(se)) => er@ == se,
                    _ => false,
                }
            }),
    {
        let mut me = self;
        let ghost env0 = me@;
        let ghost sprog = ast@;
        proof {
            super::ast::lemma_view_stmts_index(ast.statements@, 0);
        }
        let mut i: usize = 0;
        while i < ast.statements.len()
            invariant
                env0 == self@,
                i <= ast.statements@.len(),
                sprog == ast@,
                sprog.len() == ast.statements@.len(),
                forall|m: int|
                    0 <= m < ast.statements@.len() ==> sprog[m] == (
                    #[trigger] ast.statements@[m])@,
                spec_eval_program(env0, sprog, 0, CALL_DEPTH_LIMIT as nat) == spec_eval_program(
                    me@,
                    sprog,
                    i as int,
                    CALL_DEPTH_LIMIT as nat,
                ),
            decreases ast.statements@.len() - i,
        {
            match me.eval_statement(&ast.statements[i], CALL_DEPTH_LIMIT) {
                Result::Ok(_) => {},
                Result::Err(er) => {
                    return (me.output, Result::Err(er));
                },
            }
            i = i + 1;
        }
        (me.output, Result::Ok(()))
    }
}

/// The executable kind of a value.
fn value_kind(v: &Value) -> (r: ValueKind)
    ensures
        r == kind_of(v@),
{
    match v {
        Value::Number(_) => ValueKind::Number,
        Value::Str(_) => ValueKind::Str,
        Value::Boolean(_) => ValueKind::Boolean,
        Value::Unit => ValueKind::Unit,
    }
}

/// Prepending already-evaluated argument values in front of the model of
/// the remaining argument evaluation.
pub open spec fn vals_app(
    prefix: Seq<SpecValue>,
    rest: (SpecEnv, Result<Seq<SpecValue>, SpecEvalError>),
) -> (SpecEnv, Result<Seq<SpecValue>, SpecEvalError>) {
    match rest.1 {
        Result::Ok(vals) => (rest.0, Result::Ok(prefix + vals)),
        Result::Err(e) => rest,
    }
}

proof fn lemma_vals_app_empty(rest: (SpecEnv, Result<Seq<SpecValue>, SpecEvalError>))
    ensures
        vals_app(Seq::empty(), rest) == rest,
{
    match rest.1 {
        Result::Ok(vals) => {
            assert(Seq::<SpecValue>::empty() + vals =~= vals);
        },
        Result::Err(_) => {},
    }
}

proof fn lemma_vals_app_assoc(
    prefix: Seq<SpecValue>,
    v0: SpecValue,
    rest: (SpecEnv, Result<Seq<SpecValue>, SpecEvalError>),
)
    ensures
        vals_app(prefix, vals_app(seq![v0], rest)) == vals_app(prefix + seq![v0], rest),
{
    match rest.1 {
        Result::Ok(vals) => {
            assert(prefix + (seq![v0] + vals) =~= (prefix + seq![v0]) + vals);
        },
        Result::Err(_) => {},
    }
}

} // verus!
