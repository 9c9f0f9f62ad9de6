//! The abstract syntax of the source language, its reserved words, and a
//! size measure used to keep every stack-slot computation inside machine
//! bounds.

use vstd::prelude::*;
use vstd::string::StringExecFns;

verus! {

/// Unary operators.
#[derive(Debug, Clone, Copy, PartialEq, Eq, Structural)]
pub enum Op1 {
    Add1,
    Sub1,
    IsNum,
    IsBool,
}

/// Binary operators.
#[derive(Debug, Clone, Copy, PartialEq, Eq, Structural)]
pub enum Op2 {
    Plus,
    Minus,
    Times,
    Lt,
    Gt,
    Ge,
    Le,
    Eq,
}

/// An expression of the source language.
#[derive(Debug)]
pub enum Expr {
    Number(i64),
    True,
    False,
    Input,
    Id(String),
    Let(Vec<(String, Expr)>, Box<Expr>),
    UnOp(Op1, Box<Expr>),
    BinOp(Op2, Box<Expr>, Box<Expr>),
    SetVar(String, Box<Expr>),
    If(Box<Expr>, Box<Expr>, Box<Expr>),
    Block(Vec<Expr>),
    Loop(Box<Expr>),
    Break(Box<Expr>),
    FuncCall(String, Vec<Expr>),
}

/// A top-level statement: a function definition (name followed by its
/// parameters, then the body) or the terminal expression.
#[derive(Debug)]
pub enum Statement {
    Definition(Vec<String>, Box<Expr>),
    Expression(Box<Expr>),
}

/// Why a program is refused before any code is emitted.
#[derive(Debug, Clone, Copy, PartialEq, Eq, Structural)]
pub enum CompileError {
    /// The surface syntax has a shape no form recognises.
    Syntax,
    /// A reserved word names a function or a parameter.
    ReservedName,
    /// Two function definitions share a name.
    DuplicateFunction,
    /// Two parameters of one function share a name.
    DuplicateParameter,
    /// An integer literal outside the 63-bit range.
    NumberOutOfRange,
    /// A reserved word used as an identifier, a binder, or a `set!` target.
    Keyword,
    /// One `let` binds the same name twice.
    DuplicateBinding,
    /// An identifier or `set!` target with no binding in scope.
    UnboundIdentifier,
    /// A `break` with no enclosing `loop`.
    BreakOutsideLoop,
    /// A call with the wrong number of arguments.
    WrongArity,
    /// A call to a name no definition introduces.
    UnknownFunction,
    /// A program beyond the machine bounds the compiler accepts.
    TooLarge,
}

/// The exact text each error reports.
pub open spec fn message_spec(e: CompileError) -> Seq<char> {
    match e {
        CompileError::Syntax => "Invalid"@,
        CompileError::ReservedName => "Invalid function name"@,
        CompileError::DuplicateFunction => "Invalid : Define multiple functions with same name"@,
        CompileError::DuplicateParameter => "Duplicate arg name"@,
        CompileError::NumberOutOfRange => "Invalid"@,
        CompileError::Keyword => "keyword"@,
        CompileError::DuplicateBinding => "Duplicate binding"@,
        CompileError::UnboundIdentifier => "Unbound variable identifier"@,
        CompileError::BreakOutsideLoop => "break"@,
        CompileError::WrongArity => "Invalid : func arg num incorrect"@,
        CompileError::UnknownFunction => "Invalid : No such function"@,
        CompileError::TooLarge => "Invalid : program too large"@,
    }
}

impl CompileError {
    /// A short description, for reporting at the compiler's edge.
    pub fn message(&self) -> (r: &'static str)
        ensures
            r@ == message_spec(*self),
    {
        match self {
            CompileError::Syntax => "Invalid",
            CompileError::ReservedName => "Invalid function name",
            CompileError::DuplicateFunction => "Invalid : Define multiple functions with same name",
            CompileError::DuplicateParameter => "Duplicate arg name",
            CompileError::NumberOutOfRange => "Invalid",
            CompileError::Keyword => "keyword",
            CompileError::DuplicateBinding => "Duplicate binding",
            CompileError::UnboundIdentifier => "Unbound variable identifier",
            CompileError::BreakOutsideLoop => "break",
            CompileError::WrongArity => "Invalid : func arg num incorrect",
            CompileError::UnknownFunction => "Invalid : No such function",
            CompileError::TooLarge => "Invalid : program too large",
        }
    }
}

/// Ghost view of an expression: the same tree over mathematical sequences.
pub enum ExprV {
    Number(i64),
    True,
    False,
    Input,
    Id(Seq<char>),
    Let(Seq<(Seq<char>, ExprV)>, Box<ExprV>),
    UnOp(Op1, Box<ExprV>),
    BinOp(Op2, Box<ExprV>, Box<ExprV>),
    SetVar(Seq<char>, Box<ExprV>),
    If(Box<ExprV>, Box<ExprV>, Box<ExprV>),
    Block(Seq<ExprV>),
    Loop(Box<ExprV>),
    Break(Box<ExprV>),
    FuncCall(Seq<char>, Seq<ExprV>),
}

/// Ghost view of a top-level statement.
pub enum StatementV {
    Definition(Seq<Seq<char>>, ExprV),
    Expression(ExprV),
}

/// The ghost view of an expression.
pub open spec fn expr_vw(e: Expr) -> ExprV
    decreases e, 0int,
{
    match e {
        Expr::Number(n) => ExprV::Number(n),
        Expr::True => ExprV::True,
        Expr::False => ExprV::False,
        Expr::Input => ExprV::Input,
        Expr::Id(x) => ExprV::Id(x@),
        Expr::Let(binds, body) => ExprV::Let(binds_vw(binds@, 0), Box::new(expr_vw(*body))),
        Expr::UnOp(op, e1) => ExprV::UnOp(op, Box::new(expr_vw(*e1))),
        Expr::BinOp(op, e1, e2) => ExprV::BinOp(
            op,
            Box::new(expr_vw(*e1)),
            Box::new(expr_vw(*e2)),
        ),
        Expr::SetVar(x, e1) => ExprV::SetVar(x@, Box::new(expr_vw(*e1))),
        Expr::If(e1, e2, e3) => ExprV::If(
            Box::new(expr_vw(*e1)),
            Box::new(expr_vw(*e2)),
            Box::new(expr_vw(*e3)),
        ),
        Expr::Block(es) => ExprV::Block(exprs_vw(es@, 0)),
        Expr::Loop(e1) => ExprV::Loop(Box::new(expr_vw(*e1))),
        Expr::Break(e1) => ExprV::Break(Box::new(expr_vw(*e1))),
        Expr::FuncCall(f, args) => ExprV::FuncCall(f@, exprs_vw(args@, 0)),
    }
}

/// The ghost views of the expressions from position `i` on.
pub open spec fn exprs_vw(es: Seq<Expr>, i: int) -> Seq<ExprV>
    decreases es, es.len() - i,
{
    if 0 <= i < es.len() {
        seq![expr_vw(es[i])] + exprs_vw(es, i + 1)
    } else {
        Seq::<ExprV>::empty()
    }
}

/// The ghost views of the bindings from position `i` on.
pub open spec fn binds_vw(bs: Seq<(String, Expr)>, i: int) -> Seq<(Seq<char>, ExprV)>
    decreases bs, bs.len() - i,
{
    if 0 <= i < bs.len() {
        seq![(bs[i].0@, expr_vw(bs[i].1))] + binds_vw(bs, i + 1)
    } else {
        Seq::<(Seq<char>, ExprV)>::empty()
    }
}

/// The view of a suffix of expressions, element by element.
pub proof fn lemma_exprs_vw(es: Seq<Expr>, i: int)
    requires
        0 <= i <= es.len(),
    ensures
        exprs_vw(es, i).len() == es.len() - i,
        forall|k: int|
            0 <= k < es.len() - i ==> exprs_vw(es, i)[k] == expr_vw(es[i + k]),
    decreases es.len() - i,
{
    if i < es.len() {
        lemma_exprs_vw(es, i + 1);
    }
}

/// The view of a suffix of bindings, element by element.
pub proof fn lemma_binds_vw(bs: Seq<(String, Expr)>, i: int)
    requires
        0 <= i <= bs.len(),
    ensures
        binds_vw(bs, i).len() == bs.len() - i,
        forall|k: int|
            0 <= k < bs.len() - i ==> binds_vw(bs, i)[k] == (bs[i + k].0@, expr_vw(bs[i + k].1)),
    decreases bs.len() - i,
{
    if i < bs.len() {
        lemma_binds_vw(bs, i + 1);
    }
}

/// The ghost view of a statement.
pub open spec fn stmt_vw(s: Statement) -> StatementV {
    match s {
        Statement::Definition(names, body) => StatementV::Definition(
            names@.map_values(|n: String| n@),
            expr_vw(*body),
        ),
        Statement::Expression(e) => StatementV::Expression(expr_vw(*e)),
    }
}

/// The ghost views of a statement list.
pub open spec fn stmts_vw(v: Seq<Statement>) -> Seq<StatementV> {
    v.map_values(|s: Statement| stmt_vw(s))
}

/// Number of nodes in an expression; every child list contributes each of
/// its elements.  Always at least one.
pub open spec fn expr_sz(e: Expr) -> nat
    decreases e, 0int,
{
    match e {
        Expr::Number(_) => 1,
        Expr::True => 1,
        Expr::False => 1,
        Expr::Input => 1,
        Expr::Id(_) => 1,
        Expr::Let(binds, body) => 1 + binds_sz(binds@, 0) + expr_sz(*body),
        Expr::UnOp(_, e1) => 1 + expr_sz(*e1),
        Expr::BinOp(_, e1, e2) => 1 + expr_sz(*e1) + expr_sz(*e2),
        Expr::SetVar(_, e1) => 1 + expr_sz(*e1),
        Expr::If(e1, e2, e3) => 1 + expr_sz(*e1) + expr_sz(*e2) + expr_sz(*e3),
        Expr::Block(es) => 1 + exprs_sz(es@, 0),
        Expr::Loop(e1) => 1 + expr_sz(*e1),
        Expr::Break(e1) => 1 + expr_sz(*e1),
        Expr::FuncCall(_, args) => 1 + exprs_sz(args@, 0),
    }
}

/// Sum of the sizes of the expressions of `es` from position `i` on.
pub open spec fn exprs_sz(es: Seq<Expr>, i: int) -> nat
    decreases es, es.len() - i,
{
    if 0 <= i < es.len() {
        expr_sz(es[i]) + exprs_sz(es, i + 1)
    } else {
        0
    }
}

/// Sum of the sizes of the bound expressions of `bs` from position `i` on,
/// counting one node for each binding.
pub open spec fn binds_sz(bs: Seq<(String, Expr)>, i: int) -> nat
    decreases bs, bs.len() - i,
{
    if 0 <= i < bs.len() {
        1 + expr_sz(bs[i].1) + binds_sz(bs, i + 1)
    } else {
        0
    }
}

/// The reserved words of the language: special forms, literals, `input`,
/// and the unary and binary operator symbols.  None of them may name a
/// binding, a parameter or a function.
pub open spec fn is_reserved(s: Seq<char>) -> bool {
    ||| s == "let"@
    ||| s == "add1"@
    ||| s == "sub1"@
    ||| s == "true"@
    ||| s == "false"@
    ||| s == "set!"@
    ||| s == "loop"@
    ||| s == "break"@
    ||| s == "if"@
    ||| s == "block"@
    ||| s == "input"@
    ||| s == "isnum"@
    ||| s == "isbool"@
    ||| s == "+"@
    ||| s == "-"@
    ||| s == "*"@
    ||| s == "<"@
    ||| s == ">"@
    ||| s == ">="@
    ||| s == "<="@
    ||| s == "="@
}

/// Compute the node count of an expression, or nothing where the true
/// count exceeds the machine word.
pub fn expr_size(e: &Expr) -> (r: Option<usize>)
    ensures
        match r {
            Some(s) => s as nat == expr_sz(*e),
            None => expr_sz(*e) > usize::MAX,
        },
    decreases *e, 0int,
{
    match e {
        Expr::Number(_) => Some(1),
        Expr::True => Some(1),
        Expr::False => Some(1),
        Expr::Input => Some(1),
        Expr::Id(_) => Some(1),
        Expr::Let(binds, body) => {
            let a = binds_size(binds, 0)?;
            let b = expr_size(body)?;
            let s = a.checked_add(b)?;
            s.checked_add(1)
        },
        Expr::UnOp(_, e1) => expr_size(e1)?.checked_add(1),
        Expr::BinOp(_, e1, e2) => {
            let a = expr_size(e1)?;
            let b = expr_size(e2)?;
            let s = a.checked_add(b)?;
            s.checked_add(1)
        },
        Expr::SetVar(_, e1) => expr_size(e1)?.checked_add(1),
        Expr::If(e1, e2, e3) => {
            let a = expr_size(e1)?;
            let b = expr_size(e2)?;
            let c = expr_size(e3)?;
            let s = a.checked_add(b)?;
            let s2 = s.checked_add(c)?;
            s2.checked_add(1)
        },
        Expr::Block(es) => exprs_size(es, 0)?.checked_add(1),
        Expr::Loop(e1) => expr_size(e1)?.checked_add(1),
        Expr::Break(e1) => expr_size(e1)?.checked_add(1),
        Expr::FuncCall(_, args) => exprs_size(args, 0)?.checked_add(1),
    }
}

/// Compute the summed node count of the expressions from position `i` on.
fn exprs_size(es: &Vec<Expr>, i: usize) -> (r: Option<usize>)
    requires
        i <= es@.len(),
    ensures
        match r {
            Some(s) => s as nat == exprs_sz(es@, i as int),
            None => exprs_sz(es@, i as int) > usize::MAX,
        },
    decreases es@, es@.len() - i,
{
    if i < es.len() {
        let a = expr_size(&es[i])?;
        let b = exprs_size(es, i + 1)?;
        a.checked_add(b)
    } else {
        Some(0)
    }
}

/// Compute the summed node count of the bindings from position `i` on.
fn binds_size(bs: &Vec<(String, Expr)>, i: usize) -> (r: Option<usize>)
    requires
        i <= bs@.len(),
    ensures
        match r {
            Some(s) => s as nat == binds_sz(bs@, i as int),
            None => binds_sz(bs@, i as int) > usize::MAX,
        },
    decreases bs@, bs@.len() - i,
{
    if i < bs.len() {
        let a = expr_size(&bs[i].1)?;
        let b = binds_size(bs, i + 1)?;
        let s = a.checked_add(b)?;
        s.checked_add(1)
    } else {
        Some(0)
    }
}

/// String equality, decided through `String`'s specified `eq`.
pub fn str_eq(a: &str, b: &str) -> (r: bool)
    ensures
        r == (a@ == b@),
{
    let sa = String::from_str(a);
    let sb = String::from_str(b);
    sa.eq(&sb)
}

/// Decide whether a name is reserved.
pub fn reserved_name(s: &str) -> (r: bool)
    ensures
        r == is_reserved(s@),
{
    str_eq(s, "let") || str_eq(s, "add1") || str_eq(s, "sub1") || str_eq(s, "true") || str_eq(
        s,
        "false",
    ) || str_eq(s, "set!") || str_eq(s, "loop") || str_eq(s, "break") || str_eq(s, "if") || str_eq(
        s,
        "block",
    ) || str_eq(s, "input") || str_eq(s, "isnum") || str_eq(s, "isbool") || str_eq(s, "+")
        || str_eq(s, "-") || str_eq(s, "*") || str_eq(s, "<") || str_eq(s, ">") || str_eq(s, ">=")
        || str_eq(s, "<=") || str_eq(s, "=")
}

} // verus!
