//! The stack-depth analysis: an upper bound on the number of stack slots an
//! expression needs, which sizes each activation record.

use vstd::prelude::*;
use crate::ast::{binds_sz, expr_sz, exprs_sz, Expr};

verus! {

/// Bound on the node count of any expression the compiler accepts; far
/// beyond what a real program holds, it keeps every slot offset well inside
/// a 64-bit word.
pub const MAX_EXPR_SIZE: usize = 0x40000000;

/// The larger of two naturals.
pub open spec fn nmax(a: nat, b: nat) -> nat {
    if a > b {
        a
    } else {
        b
    }
}

/// Stack slots needed to evaluate an expression: atoms take none, a binary
/// operator parks its right operand in one, and each `let` binding claims
/// the slot it is bound to.
pub open spec fn depth_spec(e: Expr) -> nat
    decreases e, 0int,
{
    match e {
        Expr::Number(_) => 0,
        Expr::True => 0,
        Expr::False => 0,
        Expr::Input => 0,
        Expr::Id(_) => 0,
        Expr::Let(binds, body) => nmax(
            binds_depth_spec(binds@, 0),
            depth_spec(*body) + binds@.len(),
        ),
        Expr::UnOp(_, e1) => depth_spec(*e1),
        Expr::BinOp(_, e1, e2) => nmax(depth_spec(*e1) + 1, depth_spec(*e2)),
        Expr::SetVar(_, e1) => depth_spec(*e1),
        Expr::If(e1, e2, e3) => nmax(depth_spec(*e1), nmax(depth_spec(*e2), depth_spec(*e3))),
        Expr::Block(es) => exprs_depth_spec(es@, 0),
        Expr::Loop(e1) => depth_spec(*e1),
        Expr::Break(e1) => depth_spec(*e1),
        Expr::FuncCall(_, args) => exprs_depth_spec(args@, 0),
    }
}

/// Largest of `depth(bs[j].expr) + j` over the bindings from position `i` on.
pub open spec fn binds_depth_spec(bs: Seq<(String, Expr)>, i: int) -> nat
    decreases bs, bs.len() - i,
{
    if 0 <= i < bs.len() {
        nmax((depth_spec(bs[i].1) + i) as nat, binds_depth_spec(bs, i + 1))
    } else {
        0
    }
}

/// Largest depth over the expressions from position `i` on.
pub open spec fn exprs_depth_spec(es: Seq<Expr>, i: int) -> nat
    decreases es, es.len() - i,
{
    if 0 <= i < es.len() {
        nmax(depth_spec(es[i]), exprs_depth_spec(es, i + 1))
    } else {
        0
    }
}

/// A suffix sum of binding sizes covers each of its elements and counts at
/// least one node per binding.
pub proof fn lemma_binds_sz_parts(bs: Seq<(String, Expr)>, i: int, j: int)
    requires
        0 <= i <= j < bs.len(),
    ensures
        binds_sz(bs, i) >= 1 + expr_sz(bs[j].1) + binds_sz(bs, j + 1),
        binds_sz(bs, i) >= bs.len() - i,
    decreases j - i,
{
    if i < j {
        lemma_binds_sz_parts(bs, i + 1, j);
    } else {
        lemma_binds_sz_ge_len(bs, j + 1);
    }
}

/// A suffix sum of binding sizes counts at least one node per binding.
pub proof fn lemma_binds_sz_ge_len(bs: Seq<(String, Expr)>, i: int)
    requires
        0 <= i <= bs.len(),
    ensures
        binds_sz(bs, i) >= bs.len() - i,
    decreases bs.len() - i,
{
    if i < bs.len() {
        lemma_binds_sz_ge_len(bs, i + 1);
    }
}

/// An expression counts at least one node.
pub proof fn lemma_expr_sz_pos(e: Expr)
    ensures
        expr_sz(e) >= 1,
{
    match e {
        Expr::Number(_) => {},
        Expr::True => {},
        Expr::False => {},
        Expr::Input => {},
        Expr::Id(_) => {},
        Expr::Let(_, _) => {},
        Expr::UnOp(_, _) => {},
        Expr::BinOp(_, _, _) => {},
        Expr::SetVar(_, _) => {},
        Expr::If(_, _, _) => {},
        Expr::Block(_) => {},
        Expr::Loop(_) => {},
        Expr::Break(_) => {},
        Expr::FuncCall(_, _) => {},
    }
}

/// A suffix sum of expression sizes covers each of its elements and counts
/// at least one node per expression.
pub proof fn lemma_exprs_sz_parts(es: Seq<Expr>, i: int, j: int)
    requires
        0 <= i <= j < es.len(),
    ensures
        exprs_sz(es, i) >= expr_sz(es[j]) + exprs_sz(es, j + 1),
        exprs_sz(es, i) >= es.len() - i,
    decreases j - i,
{
    lemma_expr_sz_pos(es[i]);
    if i < j {
        lemma_exprs_sz_parts(es, i + 1, j);
    } else {
        lemma_exprs_sz_ge_len(es, j + 1);
    }
}

/// A suffix sum of expression sizes counts at least one node per expression.
pub proof fn lemma_exprs_sz_ge_len(es: Seq<Expr>, i: int)
    requires
        0 <= i <= es.len(),
    ensures
        exprs_sz(es, i) >= es.len() - i,
    decreases es.len() - i,
{
    if i < es.len() {
        lemma_expr_sz_pos(es[i]);
        lemma_exprs_sz_ge_len(es, i + 1);
    }
}

/// The depth of an expression never exceeds its node count.
pub proof fn lemma_depth_le_sz(e: Expr)
    ensures
        depth_spec(e) <= expr_sz(e),
    decreases e, 0int,
{
    match e {
        Expr::Let(binds, body) => {
            lemma_binds_depth_le_sz(binds@, 0);
            lemma_depth_le_sz(*body);
            lemma_binds_sz_ge_len(binds@, 0);
        },
        Expr::UnOp(_, e1) => lemma_depth_le_sz(*e1),
        Expr::BinOp(_, e1, e2) => {
            lemma_depth_le_sz(*e1);
            lemma_depth_le_sz(*e2);
        },
        Expr::SetVar(_, e1) => lemma_depth_le_sz(*e1),
        Expr::If(e1, e2, e3) => {
            lemma_depth_le_sz(*e1);
            lemma_depth_le_sz(*e2);
            lemma_depth_le_sz(*e3);
        },
        Expr::Block(es) => lemma_exprs_depth_le_sz(es@, 0),
        Expr::Loop(e1) => lemma_depth_le_sz(*e1),
        Expr::Break(e1) => lemma_depth_le_sz(*e1),
        Expr::FuncCall(_, args) => lemma_exprs_depth_le_sz(args@, 0),
        _ => {},
    }
}

/// Binding depths from position `i` on stay below `i` plus the remaining
/// node count.
pub proof fn lemma_binds_depth_le_sz(bs: Seq<(String, Expr)>, i: int)
    requires
        0 <= i <= bs.len(),
    ensures
        binds_depth_spec(bs, i) <= i + binds_sz(bs, i),
    decreases bs, bs.len() - i,
{
    if i < bs.len() {
        lemma_depth_le_sz(bs[i].1);
        lemma_binds_depth_le_sz(bs, i + 1);
    }
}

/// Depths of the expressions from position `i` on stay below the remaining
/// node count.
pub proof fn lemma_exprs_depth_le_sz(es: Seq<Expr>, i: int)
    requires
        0 <= i <= es.len(),
    ensures
        exprs_depth_spec(es, i) <= exprs_sz(es, i),
    decreases es, es.len() - i,
{
    if i < es.len() {
        lemma_depth_le_sz(es[i]);
        lemma_exprs_depth_le_sz(es, i + 1);
    }
}

/// Compute the stack depth of an expression.
pub fn depth(e: &Expr) -> (d: usize)
    requires
        expr_sz(*e) <= MAX_EXPR_SIZE,
    ensures
        d as nat == depth_spec(*e),
    decreases *e, 0int,
{
    match e {
        Expr::Number(_) => 0,
        Expr::True => 0,
        Expr::False => 0,
        Expr::Input => 0,
        Expr::Id(_) => 0,
        Expr::Let(binds, body) => {
            proof {
                lemma_binds_sz_ge_len(binds@, 0);
                lemma_depth_le_sz(**body);
            }
            let a = binds_depth(binds, 0);
            let b = depth(body) + binds.len();
            if a > b {
                a
            } else {
                b
            }
        },
        Expr::UnOp(_, e1) => depth(e1),
        Expr::BinOp(_, e1, e2) => {
            proof {
                lemma_depth_le_sz(**e1);
            }
            let a = depth(e1) + 1;
            let b = depth(e2);
            if a > b {
                a
            } else {
                b
            }
        },
        Expr::SetVar(_, e1) => depth(e1),
        Expr::If(e1, e2, e3) => {
            let a = depth(e1);
            let b = depth(e2);
            let c = depth(e3);
            let bc = if b > c {
                b
            } else {
                c
            };
            if a > bc {
                a
            } else {
                bc
            }
        },
        Expr::Block(es) => exprs_depth(es, 0),
        Expr::Loop(e1) => depth(e1),
        Expr::Break(e1) => depth(e1),
        Expr::FuncCall(_, args) => exprs_depth(args, 0),
    }
}

/// Compute the largest `depth + position` over the bindings from `i` on.
fn binds_depth(bs: &Vec<(String, Expr)>, i: usize) -> (d: usize)
    requires
        i <= bs@.len(),
        binds_sz(bs@, 0) <= MAX_EXPR_SIZE,
    ensures
        d as nat == binds_depth_spec(bs@, i as int),
    decreases bs@, bs@.len() - i,
{
    if i < bs.len() {
        proof {
            lemma_binds_sz_parts(bs@, 0, i as int);
            lemma_depth_le_sz(bs@[i as int].1);
            lemma_binds_sz_ge_len(bs@, 0);
        }
        let a = depth(&bs[i].1) + i;
        let b = binds_depth(bs, i + 1);
        if a > b {
            a
        } else {
            b
        }
    } else {
        0
    }
}

/// Compute the largest depth over the expressions from `i` on.
fn exprs_depth(es: &Vec<Expr>, i: usize) -> (d: usize)
    requires
        i <= es@.len(),
        exprs_sz(es@, 0) <= MAX_EXPR_SIZE,
    ensures
        d as nat == exprs_depth_spec(es@, i as int),
    decreases es@, es@.len() - i,
{
    if i < es.len() {
        proof {
            lemma_exprs_sz_parts(es@, 0, i as int);
            lemma_depth_le_sz(es@[i as int]);
        }
        let a = depth(&es[i]);
        let b = exprs_depth(es, i + 1);
        if a > b {
            a
        } else {
            b
        }
    } else {
        0
    }
}

} // verus!
