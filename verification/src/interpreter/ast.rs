//! The shape of parsed programs: expressions, statements, and the program
//! (a sequence of top-level statements), together with their mathematical
//! models. Executable nodes own their string data; the models replace each
//! owned string by its character sequence so that contracts can speak of
//! structural equality.

use vstd::prelude::*;

verus! {

broadcast use vstd::std_specs::vec::group_vec_axioms;

/// A binary operator of the expression grammar.
#[derive(Debug, Clone, Copy, PartialEq, Eq, Structural)]
pub enum BinaryOp {
    Add,
    Sub,
    Mul,
    Div,
    Eq,
    Neq,
    Gt,
    Lt,
    Gte,
    Lte,
    And,
    Or,
}

/// A unary (prefix) operator of the expression grammar.
#[derive(Debug, Clone, Copy, PartialEq, Eq, Structural)]
pub enum UnaryOp {
    Neg,
    Not,
}

/// An expression node. Evaluating an expression yields a runtime value.
#[derive(Debug, PartialEq)]
pub enum Expr {
    Binary { left: Box<Expr>, op: BinaryOp, right: Box<Expr> },
    Unary { op: UnaryOp, operand: Box<Expr> },
    Number(i64),
    StrLit(String),
    Boolean(bool),
    Identifier(String),
    FieldAccess { field: String, object: Box<Expr> },
    Call { name: String, args: Vec<Expr> },
}

/// The model of an expression: the same tree with every owned string
/// replaced by its character sequence.
#[verifier::ext_equal]
pub enum SpecExpr {
    Binary { left: Box<SpecExpr>, op: BinaryOp, right: Box<SpecExpr> },
    Unary { op: UnaryOp, operand: Box<SpecExpr> },
    Number(i64),
    StrLit(Seq<char>),
    Boolean(bool),
    Identifier(Seq<char>),
    FieldAccess { field: Seq<char>, object: Box<SpecExpr> },
    Call { name: Seq<char>, args: Seq<SpecExpr> },
}

/// A statement: a top-level or function-body executable unit.
#[derive(Debug, PartialEq)]
pub enum Statement {
    Get { field: Expr, filter: Option<Expr> },
    SetKey { field: Expr, key: String, value: Expr },
    Delete { field: Expr, key: String },
    Where { condition: Expr },
    Let { name: String, value: Expr },
    FuncDef { name: String, params: Vec<String>, body: Vec<Statement> },
    Expr(Expr),
}

/// The model of a statement.
#[verifier::ext_equal]
pub enum SpecStmt {
    Get { field: SpecExpr, filter: Option<SpecExpr> },
    SetKey { field: SpecExpr, key: Seq<char>, value: SpecExpr },
    Delete { field: SpecExpr, key: Seq<char> },
    Where { condition: SpecExpr },
    Let { name: Seq<char>, value: SpecExpr },
    FuncDef { name: Seq<char>, params: Seq<Seq<char>>, body: Seq<SpecStmt> },
    Expr(SpecExpr),
}

/// A parsed program: its top-level statements in source order.
#[derive(Debug)]
pub struct AST {
    pub statements: Vec<Statement>,
}

pub open spec fn view_params(params: Seq<String>) -> Seq<Seq<char>> {
    Seq::new(params.len(), |i: int| params[i]@)
}

pub open spec fn view_expr(e: Expr) -> SpecExpr
    decreases e,
{
    match e {
        Expr::Binary { left, op, right } => SpecExpr::Binary {
            left: Box::new(view_expr(*left)),
            op,
            right: Box::new(view_expr(*right)),
        },
        Expr::Unary { op, operand } => SpecExpr::Unary {
            op,
            operand: Box::new(view_expr(*operand)),
        },
        Expr::Number(n) => SpecExpr::Number(n),
        Expr::StrLit(s) => SpecExpr::StrLit(s@),
        Expr::Boolean(b) => SpecExpr::Boolean(b),
        Expr::Identifier(name) => SpecExpr::Identifier(name@),
        Expr::FieldAccess { field, object } => SpecExpr::FieldAccess {
            field: field@,
            object: Box::new(view_expr(*object)),
        },
        Expr::Call { name, args } => SpecExpr::Call {
            name: name@,
            args: view_exprs(args@, 0),
        },
    }
}

pub open spec fn view_exprs(args: Seq<Expr>, i: int) -> Seq<SpecExpr>
    decreases args, args.len() - i,
{
    if i < 0 || i >= args.len() {
        Seq::empty()
    } else {
        seq![view_expr(args[i])] + view_exprs(args, i + 1)
    }
}

pub open spec fn view_stmt(s: Statement) -> SpecStmt
    decreases s,
{
    match s {
        Statement::Get { field, filter } => SpecStmt::Get {
            field: view_expr(field),
            filter: match filter {
                Option::Some(f) => Option::Some(view_expr(f)),
                Option::None => Option::None,
            },
        },
        Statement::SetKey { field, key, value } => SpecStmt::SetKey {
            field: view_expr(field),
            key: key@,
            value: view_expr(value),
        },
        Statement::Delete { field, key } => SpecStmt::Delete {
            field: view_expr(field),
            key: key@,
        },
        Statement::Where { condition } => SpecStmt::Where { condition: view_expr(condition) },
        Statement::Let { name, value } => SpecStmt::Let {
            name: name@,
            value: view_expr(value),
        },
        Statement::FuncDef { name, params, body } => SpecStmt::FuncDef {
            name: name@,
            params: view_params(params@),
            body: view_stmts(body@, 0),
        },
        Statement::Expr(e) => SpecStmt::Expr(view_expr(e)),
    }
}

pub open spec fn view_stmts(stmts: Seq<Statement>, i: int) -> Seq<SpecStmt>
    decreases stmts, stmts.len() - i,
{
    if i < 0 || i >= stmts.len() {
        Seq::empty()
    } else {
        seq![view_stmt(stmts[i])] + view_stmts(stmts, i + 1)
    }
}

impl View for Expr {
    type V = SpecExpr;

    open spec fn view(&self) -> SpecExpr {
        view_expr(*self)
    }
}

impl View for Statement {
    type V = SpecStmt;

    open spec fn view(&self) -> SpecStmt {
        view_stmt(*self)
    }
}

impl View for AST {
    type V = Seq<SpecStmt>;

    open spec fn view(&self) -> Seq<SpecStmt> {
        view_stmts(self.statements@, 0)
    }
}

/// The sequence views element-wise: `view_exprs(args, 0)` is the sequence of
/// the views of the elements of `args`.
pub proof fn lemma_view_exprs_index(args: Seq<Expr>, i: int)
    ensures
        view_exprs(args, i).len() == if i < 0 || i >= args.len() { 0int } else { args.len() - i },
        forall|j: int|
            0 <= j < view_exprs(args, i).len() ==> view_exprs(args, i)[j] == view_expr(
                args[i + j],
            ),
    decreases args.len() - i,
{
    if 0 <= i < args.len() {
        lemma_view_exprs_index(args, i + 1);
    }
}

/// Appending one expression to a sequence appends its view.
pub proof fn lemma_view_exprs_push(s: Seq<Expr>, e: Expr)
    ensures
        view_exprs(s.push(e), 0) == view_exprs(s, 0) + seq![e@],
{
    lemma_view_exprs_index(s.push(e), 0);
    lemma_view_exprs_index(s, 0);
    assert(forall|j: int| 0 <= j < s.len() ==> #[trigger] s.push(e)[j] == s[j]);
    assert(s.push(e)[s.len() as int] == e);
    assert(view_exprs(s.push(e), 0) =~= view_exprs(s, 0) + seq![e@]);
}

/// Appending one statement to a sequence appends its view.
pub proof fn lemma_view_stmts_push(s: Seq<Statement>, x: Statement)
    ensures
        view_stmts(s.push(x), 0) == view_stmts(s, 0) + seq![x@],
{
    lemma_view_stmts_index(s.push(x), 0);
    lemma_view_stmts_index(s, 0);
    assert(forall|j: int| 0 <= j < s.len() ==> #[trigger] s.push(x)[j] == s[j]);
    assert(s.push(x)[s.len() as int] == x);
    assert(view_stmts(s.push(x), 0) =~= view_stmts(s, 0) + seq![x@]);
}

/// Appending one name to a parameter list appends its view.
pub proof fn lemma_view_params_push(s: Seq<String>, x: String)
    ensures
        view_params(s.push(x)) == view_params(s) + seq![x@],
{
    assert(view_params(s.push(x)) =~= view_params(s) + seq![x@]);
}

/// The statement-sequence view is element-wise as well.
pub proof fn lemma_view_stmts_index(stmts: Seq<Statement>, i: int)
    ensures
        view_stmts(stmts, i).len() == if i < 0 || i >= stmts.len() {
            0int
        } else {
            stmts.len() - i
        },
        forall|j: int|
            0 <= j < view_stmts(stmts, i).len() ==> view_stmts(stmts, i)[j] == view_stmt(
                stmts[i + j],
            ),
    decreases stmts.len() - i,
{
    if 0 <= i < stmts.len() {
        lemma_view_stmts_index(stmts, i + 1);
    }
}

// ---------------------------------------------------------------------------
// Sizes: termination measures for walking the tree
// ---------------------------------------------------------------------------

pub open spec fn expr_size(e: SpecExpr) -> nat
    decreases e,
{
    match e {
        SpecExpr::Binary { left, op, right } => 1 + expr_size(*left) + expr_size(*right),
        SpecExpr::Unary { op, operand } => 1 + expr_size(*operand),
        SpecExpr::Number(_) => 1,
        SpecExpr::StrLit(_) => 1,
        SpecExpr::Boolean(_) => 1,
        SpecExpr::Identifier(_) => 1,
        SpecExpr::FieldAccess { field, object } => 1 + expr_size(*object),
        SpecExpr::Call { name, args } => 1 + exprs_size(args, 0),
    }
}

pub open spec fn exprs_size(args: Seq<SpecExpr>, i: int) -> nat
    decreases args, args.len() - i,
{
    if i < 0 || i >= args.len() {
        1
    } else {
        1 + expr_size(args[i]) + exprs_size(args, i + 1)
    }
}

pub open spec fn stmt_size(s: SpecStmt) -> nat
    decreases s,
{
    match s {
        SpecStmt::Get { field, filter } => 1 + expr_size(field) + (match filter {
            Option::Some(f) => expr_size(f),
            Option::None => 0,
        }),
        SpecStmt::SetKey { field, key, value } => 1 + expr_size(field) + expr_size(value),
        SpecStmt::Delete { field, key } => 1 + expr_size(field),
        SpecStmt::Where { condition } => 1 + expr_size(condition),
        SpecStmt::Let { name, value } => 1 + expr_size(value),
        SpecStmt::FuncDef { name, params, body } => 1 + stmts_size(body, 0),
        SpecStmt::Expr(e) => 1 + expr_size(e),
    }
}

pub open spec fn stmts_size(stmts: Seq<SpecStmt>, i: int) -> nat
    decreases stmts, stmts.len() - i,
{
    if i < 0 || i >= stmts.len() {
        1
    } else {
        1 + stmt_size(stmts[i]) + stmts_size(stmts, i + 1)
    }
}

/// Every element weighs less than the sequence from any index at or before
/// it.
pub proof fn lemma_exprs_size_ge(args: Seq<SpecExpr>, i: int, j: int)
    requires
        0 <= i <= j < args.len(),
    ensures
        expr_size(args[j]) < exprs_size(args, i),
    decreases j - i,
{
    if i < j {
        lemma_exprs_size_ge(args, i + 1, j);
    }
}

/// Every statement weighs less than the sequence from any index at or
/// before it.
pub proof fn lemma_stmts_size_ge(stmts: Seq<SpecStmt>, i: int, j: int)
    requires
        0 <= i <= j < stmts.len(),
    ensures
        stmt_size(stmts[j]) < stmts_size(stmts, i),
    decreases j - i,
{
    if i < j {
        lemma_stmts_size_ge(stmts, i + 1, j);
    }
}

// ---------------------------------------------------------------------------
// Deep copies, preserving the model
// ---------------------------------------------------------------------------

/// Copies an expression; the copy has the same model.
pub fn clone_expr(e: &Expr) -> (r: Expr)
    ensures
        r@ == e@,
    decreases e,
{
    match e {
        Expr::Binary { left, op, right } => Expr::Binary {
            left: Box::new(clone_expr(left)),
            op: *op,
            right: Box::new(clone_expr(right)),
        },
        Expr::Unary { op, operand } => Expr::Unary {
            op: *op,
            operand: Box::new(clone_expr(operand)),
        },
        Expr::Number(n) => Expr::Number(*n),
        Expr::StrLit(s) => Expr::StrLit(s.clone()),
        Expr::Boolean(b) => Expr::Boolean(*b),
        Expr::Identifier(name) => Expr::Identifier(name.clone()),
        Expr::FieldAccess { field, object } => Expr::FieldAccess {
            field: field.clone(),
            object: Box::new(clone_expr(object)),
        },
        Expr::Call { name, args } => Expr::Call { name: name.clone(), args: clone_exprs(args) },
    }
}

/// Copies an argument list; the copy has the same model.
pub fn clone_exprs(v: &Vec<Expr>) -> (r: Vec<Expr>)
    ensures
        view_exprs(r@, 0) == view_exprs(v@, 0),
    decreases v,
{
    let mut r: Vec<Expr> = Vec::new();
    let mut i: usize = 0;
    while i < v.len()
        invariant
            i <= v@.len(),
            r@.len() == i,
            forall|j: int| 0 <= j < i ==> (#[trigger] r@[j])@ == v@[j]@,
        decreases v@.len() - i,
    {
        r.push(clone_expr(&v[i]));
        i = i + 1;
    }
    proof {
        lemma_view_exprs_pointwise(r@, v@);
    }
    r
}

/// Element-wise equal models give equal sequence views.
pub proof fn lemma_view_exprs_pointwise(a: Seq<Expr>, b: Seq<Expr>)
    requires
        a.len() == b.len(),
        forall|j: int| 0 <= j < a.len() ==> (#[trigger] a[j])@ == b[j]@,
    ensures
        view_exprs(a, 0) == view_exprs(b, 0),
{
    lemma_view_exprs_index(a, 0);
    lemma_view_exprs_index(b, 0);
    assert(view_exprs(a, 0) =~= view_exprs(b, 0));
}

/// Element-wise equal models give equal sequence views.
pub proof fn lemma_view_stmts_pointwise(a: Seq<Statement>, b: Seq<Statement>)
    requires
        a.len() == b.len(),
        forall|j: int| 0 <= j < a.len() ==> (#[trigger] a[j])@ == b[j]@,
    ensures
        view_stmts(a, 0) == view_stmts(b, 0),
{
    lemma_view_stmts_index(a, 0);
    lemma_view_stmts_index(b, 0);
    assert(view_stmts(a, 0) =~= view_stmts(b, 0));
}

/// Copies a statement; the copy has the same model.
pub fn clone_stmt(s: &Statement) -> (r: Statement)
    ensures
        r@ == s@,
    decreases s,
{
    match s {
        Statement::Get { field, filter } => Statement::Get {
            field: clone_expr(field),
            filter: match filter {
                Option::Some(f) => Option::Some(clone_expr(f)),
                Option::None => Option::None,
            },
        },
        Statement::SetKey { field, key, value } => Statement::SetKey {
            field: clone_expr(field),
            key: key.clone(),
            value: clone_expr(value),
        },
        Statement::Delete { field, key } => Statement::Delete {
            field: clone_expr(field),
            key: key.clone(),
        },
        Statement::Where { condition } => Statement::Where { condition: clone_expr(condition) },
        Statement::Let { name, value } => Statement::Let {
            name: name.clone(),
            value: clone_expr(value),
        },
        Statement::FuncDef { name, params, body } => Statement::FuncDef {
            name: name.clone(),
            params: clone_params(params),
            body: clone_stmts(body),
        },
        Statement::Expr(e) => Statement::Expr(clone_expr(e)),
    }
}

/// Copies a statement list; the copy has the same model.
pub fn clone_stmts(v: &Vec<Statement>) -> (r: Vec<Statement>)
    ensures
        view_stmts(r@, 0) == view_stmts(v@, 0),
    decreases v,
{
    let mut r: Vec<Statement> = Vec::new();
    let mut i: usize = 0;
    while i < v.len()
        invariant
            i <= v@.len(),
            r@.len() == i,
            forall|j: int| 0 <= j < i ==> (#[trigger] r@[j])@ == v@[j]@,
        decreases v@.len() - i,
    {
        r.push(clone_stmt(&v[i]));
        i = i + 1;
    }
    proof {
        lemma_view_stmts_pointwise(r@, v@);
    }
    r
}

/// Copies a parameter list; the copy has the same model.
pub fn clone_params(v: &Vec<String>) -> (r: Vec<String>)
    ensures
        view_params(r@) == view_params(v@),
{
    let mut r: Vec<String> = Vec::new();
    let mut i: usize = 0;
    while i < v.len()
        invariant
            i <= v@.len(),
            r@.len() == i,
            forall|j: int| 0 <= j < i ==> (#[trigger] r@[j])@ == v@[j]@,
        decreases v@.len() - i,
    {
        r.push(v[i].clone());
        i = i + 1;
    }
    proof {
        assert(view_params(r@) =~= view_params(v@));
    }
    r
}


} // verus!
