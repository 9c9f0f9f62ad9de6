//! The parser: S-expression trees to abstract syntax.  Each recogniser is
//! specified by a ghost mirror over the views of its input, so the contract
//! states exactly which tree every S-expression parses to and which input
//! is rejected with which error.

use vstd::prelude::*;
use crate::ast::{
    binds_vw, expr_vw, exprs_vw, is_reserved, lemma_binds_vw, lemma_exprs_vw, str_eq, CompileError,
    Expr, ExprV, Op1, Op2, Statement, StatementV,
};
use crate::envmap::{indices_of, IndexMap};
use crate::sexpr::SExp;

verus! {

/// The characters of a symbol atom, if the node is one.
pub open spec fn sym_of(s: SExp) -> Option<Seq<char>> {
    match s {
        SExp::Sym(x) => Some(x@),
        _ => None,
    }
}

/// What a unary-operator form parses to.
pub open spec fn mk1(op: Op1, r: Result<ExprV, CompileError>) -> Result<ExprV, CompileError> {
    match r {
        Ok(e) => Ok(ExprV::UnOp(op, Box::new(e))),
        Err(c) => Err(c),
    }
}

/// What a binary-operator form parses to; a failure of the left operand
/// wins over one of the right.
pub open spec fn mk2(
    op: Op2,
    r1: Result<ExprV, CompileError>,
    r2: Result<ExprV, CompileError>,
) -> Result<ExprV, CompileError> {
    match r1 {
        Ok(e1) => match r2 {
            Ok(e2) => Ok(ExprV::BinOp(op, Box::new(e1), Box::new(e2))),
            Err(c) => Err(c),
        },
        Err(c) => Err(c),
    }
}

/// What an S-expression parses to as an expression.
pub open spec fn parse_expr_spec(s: SExp) -> Result<ExprV, CompileError>
    decreases s, 0int,
{
    match s {
        SExp::Int(n) => Ok(ExprV::Number(n)),
        SExp::Sym(x) => if x@ == "true"@ {
            Ok(ExprV::True)
        } else if x@ == "false"@ {
            Ok(ExprV::False)
        } else if x@ == "input"@ {
            Ok(ExprV::Input)
        } else {
            Ok(ExprV::Id(x@))
        },
        SExp::List(v) => parse_list_spec(v@),
        SExp::Other => Err(CompileError::Syntax),
    }
}

/// What a parenthesised form parses to: a special form when its head is the
/// matching reserved word with the right shape, a call when its head is an
/// unreserved symbol, and a syntax error otherwise — in particular, a
/// reserved head with the wrong shape is refused here, an empty `block` and
/// an empty `let` binding list among them.
pub open spec fn parse_list_spec(v: Seq<SExp>) -> Result<ExprV, CompileError>
    decreases v, v.len() + 1,
{
    if v.len() < 1 {
        Err(CompileError::Syntax)
    } else {
        match sym_of(v[0]) {
        Some(h) => {
            if h == "add1"@ {
                if v.len() == 2 {
                    mk1(Op1::Add1, parse_expr_spec(v[1]))
                } else {
                    Err(CompileError::Syntax)
                }
            } else if h == "sub1"@ {
                if v.len() == 2 {
                    mk1(Op1::Sub1, parse_expr_spec(v[1]))
                } else {
                    Err(CompileError::Syntax)
                }
            } else if h == "isnum"@ {
                if v.len() == 2 {
                    mk1(Op1::IsNum, parse_expr_spec(v[1]))
                } else {
                    Err(CompileError::Syntax)
                }
            } else if h == "isbool"@ {
                if v.len() == 2 {
                    mk1(Op1::IsBool, parse_expr_spec(v[1]))
                } else {
                    Err(CompileError::Syntax)
                }
            } else if h == "+"@ {
                if v.len() == 3 {
                    mk2(Op2::Plus, parse_expr_spec(v[1]), parse_expr_spec(v[2]))
                } else {
                    Err(CompileError::Syntax)
                }
            } else if h == "-"@ {
                if v.len() == 3 {
                    mk2(Op2::Minus, parse_expr_spec(v[1]), parse_expr_spec(v[2]))
                } else {
                    Err(CompileError::Syntax)
                }
            } else if h == "*"@ {
                if v.len() == 3 {
                    mk2(Op2::Times, parse_expr_spec(v[1]), parse_expr_spec(v[2]))
                } else {
                    Err(CompileError::Syntax)
                }
            } else if h == "<"@ {
                if v.len() == 3 {
                    mk2(Op2::Lt, parse_expr_spec(v[1]), parse_expr_spec(v[2]))
                } else {
                    Err(CompileError::Syntax)
                }
            } else if h == ">"@ {
                if v.len() == 3 {
                    mk2(Op2::Gt, parse_expr_spec(v[1]), parse_expr_spec(v[2]))
                } else {
                    Err(CompileError::Syntax)
                }
            } else if h == ">="@ {
                if v.len() == 3 {
                    mk2(Op2::Ge, parse_expr_spec(v[1]), parse_expr_spec(v[2]))
                } else {
                    Err(CompileError::Syntax)
                }
            } else if h == "<="@ {
                if v.len() == 3 {
                    mk2(Op2::Le, parse_expr_spec(v[1]), parse_expr_spec(v[2]))
                } else {
                    Err(CompileError::Syntax)
                }
            } else if h == "="@ {
                if v.len() == 3 {
                    mk2(Op2::Eq, parse_expr_spec(v[1]), parse_expr_spec(v[2]))
                } else {
                    Err(CompileError::Syntax)
                }
            } else if h == "set!"@ {
                if v.len() == 3 {
                    match sym_of(v[1]) {
                        Some(name) => match parse_expr_spec(v[2]) {
                            Ok(e) => Ok(ExprV::SetVar(name, Box::new(e))),
                            Err(c) => Err(c),
                        },
                        None => Err(CompileError::Syntax),
                    }
                } else {
                    Err(CompileError::Syntax)
                }
            } else if h == "if"@ {
                if v.len() == 4 {
                    match parse_expr_spec(v[1]) {
                        Ok(e1) => match parse_expr_spec(v[2]) {
                            Ok(e2) => match parse_expr_spec(v[3]) {
                                Ok(e3) => Ok(
                                    ExprV::If(Box::new(e1), Box::new(e2), Box::new(e3)),
                                ),
                                Err(c) => Err(c),
                            },
                            Err(c) => Err(c),
                        },
                        Err(c) => Err(c),
                    }
                } else {
                    Err(CompileError::Syntax)
                }
            } else if h == "block"@ {
                if v.len() >= 2 {
                    match parse_items_spec(v, 1) {
                        Ok(es) => Ok(ExprV::Block(es)),
                        Err(c) => Err(c),
                    }
                } else {
                    Err(CompileError::Syntax)
                }
            } else if h == "loop"@ {
                if v.len() == 2 {
                    match parse_expr_spec(v[1]) {
                        Ok(e) => Ok(ExprV::Loop(Box::new(e))),
                        Err(c) => Err(c),
                    }
                } else {
                    Err(CompileError::Syntax)
                }
            } else if h == "break"@ {
                if v.len() == 2 {
                    match parse_expr_spec(v[1]) {
                        Ok(e) => Ok(ExprV::Break(Box::new(e))),
                        Err(c) => Err(c),
                    }
                } else {
                    Err(CompileError::Syntax)
                }
            } else if h == "let"@ {
                if v.len() == 3 {
                    match v[1] {
                        SExp::List(binds) => {
                            if binds@.len() == 0 {
                                Err(CompileError::Syntax)
                            } else {
                                match parse_binds_spec(binds@, 0) {
                                    Ok(bs) => match parse_expr_spec(v[2]) {
                                        Ok(body) => Ok(ExprV::Let(bs, Box::new(body))),
                                        Err(c) => Err(c),
                                    },
                                    Err(c) => Err(c),
                                }
                            }
                        },
                        _ => Err(CompileError::Syntax),
                    }
                } else {
                    Err(CompileError::Syntax)
                }
            } else if is_reserved(h) {
                Err(CompileError::Syntax)
            } else {
                match parse_items_spec(v, 1) {
                    Ok(args) => Ok(ExprV::FuncCall(h, args)),
                    Err(c) => Err(c),
                }
            }
        },
        _ => Err(CompileError::Syntax),
        }
    }
}

/// What the elements from position `i` on parse to, in order; the first
/// failure wins.
pub open spec fn parse_items_spec(v: Seq<SExp>, i: int) -> Result<Seq<ExprV>, CompileError>
    decreases v, v.len() - i,
{
    if 0 <= i < v.len() {
        match parse_expr_spec(v[i]) {
            Ok(e) => match parse_items_spec(v, i + 1) {
                Ok(rest) => Ok(seq![e] + rest),
                Err(c) => Err(c),
            },
            Err(c) => Err(c),
        }
    } else {
        Ok(Seq::<ExprV>::empty())
    }
}

/// What a binding form parses to: a two-element list of a symbol and an
/// expression.
pub open spec fn parse_bind_spec(b: SExp) -> Result<(Seq<char>, ExprV), CompileError>
    decreases b, 0int,
{
    match b {
        SExp::List(bv) => if bv@.len() == 2 {
            match sym_of(bv@[0]) {
                Some(name) => match parse_expr_spec(bv@[1]) {
                    Ok(e) => Ok((name, e)),
                    Err(c) => Err(c),
                },
                None => Err(CompileError::Syntax),
            }
        } else {
            Err(CompileError::Syntax)
        },
        _ => Err(CompileError::Syntax),
    }
}

/// What the bindings from position `i` on parse to, in order.
pub open spec fn parse_binds_spec(bs: Seq<SExp>, i: int) -> Result<
    Seq<(Seq<char>, ExprV)>,
    CompileError,
>
    decreases bs, bs.len() - i,
{
    if 0 <= i < bs.len() {
        match parse_bind_spec(bs[i]) {
            Ok(b) => match parse_binds_spec(bs, i + 1) {
                Ok(rest) => Ok(seq![b] + rest),
                Err(c) => Err(c),
            },
            Err(c) => Err(c),
        }
    } else {
        Ok(Seq::<(Seq<char>, ExprV)>::empty())
    }
}

/// Parse one S-expression as an expression.
pub fn parse_expr(s: &SExp) -> (r: Result<Expr, CompileError>)
    ensures
        match r {
            Ok(e) => parse_expr_spec(*s) == Ok::<ExprV, CompileError>(expr_vw(e)),
            Err(c) => parse_expr_spec(*s) == Err::<ExprV, CompileError>(c),
        },
    decreases *s, 0int,
{
    match s {
        SExp::Int(n) => Ok(Expr::Number(*n)),
        SExp::Sym(x) => {
            if str_eq(x.as_str(), "true") {
                Ok(Expr::True)
            } else if str_eq(x.as_str(), "false") {
                Ok(Expr::False)
            } else if str_eq(x.as_str(), "input") {
                Ok(Expr::Input)
            } else {
                Ok(Expr::Id(x.clone()))
            }
        },
        SExp::List(v) => parse_list(v),
        SExp::Other => Err(CompileError::Syntax),
    }
}

/// Parse a parenthesised form.
#[verifier::rlimit(100)]
fn parse_list(v: &Vec<SExp>) -> (r: Result<Expr, CompileError>)
    ensures
        match r {
            Ok(e) => parse_list_spec(v@) == Ok::<ExprV, CompileError>(expr_vw(e)),
            Err(c) => parse_list_spec(v@) == Err::<ExprV, CompileError>(c),
        },
    decreases v@, v@.len() + 1,
{
    if v.len() == 0 {
        return Err(CompileError::Syntax);
    }
    let head: &SExp = &v[0];
    let x: &String = match head {
        SExp::Sym(x) => x,
        _ => {
            return Err(CompileError::Syntax);
        },
    };
    if str_eq(x.as_str(), "add1") {
        if v.len() == 2 {
            let e = parse_expr(&v[1])?;
            Ok(Expr::UnOp(Op1::Add1, Box::new(e)))
        } else {
            Err(CompileError::Syntax)
        }
    } else if str_eq(x.as_str(), "sub1") {
        if v.len() == 2 {
            let e = parse_expr(&v[1])?;
            Ok(Expr::UnOp(Op1::Sub1, Box::new(e)))
        } else {
            Err(CompileError::Syntax)
        }
    } else if str_eq(x.as_str(), "isnum") {
        if v.len() == 2 {
            let e = parse_expr(&v[1])?;
            Ok(Expr::UnOp(Op1::IsNum, Box::new(e)))
        } else {
            Err(CompileError::Syntax)
        }
    } else if str_eq(x.as_str(), "isbool") {
        if v.len() == 2 {
            let e = parse_expr(&v[1])?;
            Ok(Expr::UnOp(Op1::IsBool, Box::new(e)))
        } else {
            Err(CompileError::Syntax)
        }
    } else if str_eq(x.as_str(), "+") {
        parse_binop(Op2::Plus, v)
    } else if str_eq(x.as_str(), "-") {
        parse_binop(Op2::Minus, v)
    } else if str_eq(x.as_str(), "*") {
        parse_binop(Op2::Times, v)
    } else if str_eq(x.as_str(), "<") {
        parse_binop(Op2::Lt, v)
    } else if str_eq(x.as_str(), ">") {
        parse_binop(Op2::Gt, v)
    } else if str_eq(x.as_str(), ">=") {
        parse_binop(Op2::Ge, v)
    } else if str_eq(x.as_str(), "<=") {
        parse_binop(Op2::Le, v)
    } else if str_eq(x.as_str(), "=") {
        parse_binop(Op2::Eq, v)
    } else if str_eq(x.as_str(), "set!") {
        if v.len() == 3 {
            match &v[1] {
                SExp::Sym(name) => {
                    let e = parse_expr(&v[2])?;
                    Ok(Expr::SetVar(name.clone(), Box::new(e)))
                },
                _ => Err(CompileError::Syntax),
            }
        } else {
            Err(CompileError::Syntax)
        }
    } else if str_eq(x.as_str(), "if") {
        if v.len() == 4 {
            let e1 = parse_expr(&v[1])?;
            let e2 = parse_expr(&v[2])?;
            let e3 = parse_expr(&v[3])?;
            Ok(Expr::If(Box::new(e1), Box::new(e2), Box::new(e3)))
        } else {
            Err(CompileError::Syntax)
        }
    } else if str_eq(x.as_str(), "block") {
        if v.len() >= 2 {
            let es = parse_items(v, 1)?;
            Ok(Expr::Block(es))
        } else {
            Err(CompileError::Syntax)
        }
    } else if str_eq(x.as_str(), "loop") {
        if v.len() == 2 {
            let e = parse_expr(&v[1])?;
            Ok(Expr::Loop(Box::new(e)))
        } else {
            Err(CompileError::Syntax)
        }
    } else if str_eq(x.as_str(), "break") {
        if v.len() == 2 {
            let e = parse_expr(&v[1])?;
            Ok(Expr::Break(Box::new(e)))
        } else {
            Err(CompileError::Syntax)
        }
    } else if str_eq(x.as_str(), "let") {
        if v.len() == 3 {
            match &v[1] {
                SExp::List(binds) => {
                    if binds.len() == 0 {
                        Err(CompileError::Syntax)
                    } else {
                        let bs = parse_binds(binds, 0)?;
                        let body = parse_expr(&v[2])?;
                        Ok(Expr::Let(bs, Box::new(body)))
                    }
                },
                _ => Err(CompileError::Syntax),
            }
        } else {
            Err(CompileError::Syntax)
        }
    } else if crate::ast::reserved_name(x.as_str()) {
        Err(CompileError::Syntax)
    } else {
        let args = parse_items(v, 1)?;
        Ok(Expr::FuncCall(x.clone(), args))
    }
}

/// Parse a three-element operator form.
fn parse_binop(op: Op2, v: &Vec<SExp>) -> (r: Result<Expr, CompileError>)
    requires
        v@.len() >= 1,
    ensures
        match r {
            Ok(e) => v@.len() == 3 && (mk2(
                op,
                parse_expr_spec(v@[1]),
                parse_expr_spec(v@[2]),
            ) == Ok::<ExprV, CompileError>(expr_vw(e))),
            Err(c) => (v@.len() == 3 ==> mk2(
                op,
                parse_expr_spec(v@[1]),
                parse_expr_spec(v@[2]),
            ) == Err::<ExprV, CompileError>(c)) && (v@.len() != 3 ==> c == CompileError::Syntax),
        },
    decreases v@, 1int,
{
    if v.len() == 3 {
        let e1 = parse_expr(&v[1])?;
        let e2 = parse_expr(&v[2])?;
        Ok(Expr::BinOp(op, Box::new(e1), Box::new(e2)))
    } else {
        Err(CompileError::Syntax)
    }
}

/// Parse the elements from position `i` on, in order.
fn parse_items(v: &Vec<SExp>, i: usize) -> (r: Result<Vec<Expr>, CompileError>)
    requires
        i <= v@.len(),
    ensures
        match r {
            Ok(es) => parse_items_spec(v@, i as int) == Ok::<Seq<ExprV>, CompileError>(
                exprs_vw(es@, 0),
            ),
            Err(c) => parse_items_spec(v@, i as int) == Err::<Seq<ExprV>, CompileError>(c),
        },
    decreases v@, v@.len() - i,
{
    if i < v.len() {
        let e = parse_expr(&v[i])?;
        let mut rest = parse_items(v, i + 1)?;
        let ghost old_rest = rest@;
        rest.insert(0, e);
        proof {
            lemma_exprs_vw(rest@, 0);
            lemma_exprs_vw(old_rest, 0);
            assert(exprs_vw(rest@, 0) =~= seq![expr_vw(e)] + exprs_vw(old_rest, 0));
        }
        Ok(rest)
    } else {
        Ok(Vec::new())
    }
}

/// Parse one `let` binding.
fn parse_bind(b: &SExp) -> (r: Result<(String, Expr), CompileError>)
    ensures
        match r {
            Ok(p) => parse_bind_spec(*b) == Ok::<(Seq<char>, ExprV), CompileError>(
                (p.0@, expr_vw(p.1)),
            ),
            Err(c) => parse_bind_spec(*b) == Err::<(Seq<char>, ExprV), CompileError>(c),
        },
    decreases *b, 0int,
{
    match b {
        SExp::List(bv) => {
            if bv.len() == 2 {
                match &bv[0] {
                    SExp::Sym(name) => {
                        let e = parse_expr(&bv[1])?;
                        Ok((name.clone(), e))
                    },
                    _ => Err(CompileError::Syntax),
                }
            } else {
                Err(CompileError::Syntax)
            }
        },
        _ => Err(CompileError::Syntax),
    }
}

/// Parse the bindings from position `i` on, in order.
fn parse_binds(bs: &Vec<SExp>, i: usize) -> (r: Result<Vec<(String, Expr)>, CompileError>)
    requires
        i <= bs@.len(),
    ensures
        match r {
            Ok(v) => parse_binds_spec(bs@, i as int) == Ok::<Seq<(Seq<char>, ExprV)>, CompileError>(
                binds_vw(v@, 0),
            ),
            Err(c) => parse_binds_spec(bs@, i as int) == Err::<
                Seq<(Seq<char>, ExprV)>,
                CompileError,
            >(c),
        },
    decreases bs@, bs@.len() - i,
{
    if i < bs.len() {
        let b = parse_bind(&bs[i])?;
        let mut rest = parse_binds(bs, i + 1)?;
        let ghost old_rest = rest@;
        let ghost bview = (b.0@, expr_vw(b.1));
        rest.insert(0, b);
        proof {
            lemma_binds_vw(rest@, 0);
            lemma_binds_vw(old_rest, 0);
            assert(binds_vw(rest@, 0) =~= seq![bview] + binds_vw(old_rest, 0));
        }
        Ok(rest)
    } else {
        Ok(Vec::new())
    }
}

/// The views of a list of names.
pub open spec fn names_vw(ns: Seq<String>) -> Seq<Seq<char>> {
    ns.map_values(|n: String| n@)
}

/// What the symbol atoms from position `i` on are; a non-symbol is refused.
pub open spec fn parse_names_spec(v: Seq<SExp>, i: int) -> Result<Seq<Seq<char>>, CompileError>
    decreases v, v.len() - i,
{
    if 0 <= i < v.len() {
        match sym_of(v[i]) {
            Some(n) => match parse_names_spec(v, i + 1) {
                Ok(rest) => Ok(seq![n] + rest),
                Err(c) => Err(c),
            },
            None => Err(CompileError::Syntax),
        }
    } else {
        Ok(Seq::<Seq<char>>::empty())
    }
}

/// What a `fun` form parses to, given the arity table so far: the name
/// list (function name first), the body, and the table extended with the
/// function's arity.  A reserved or already defined function name is
/// refused.
pub open spec fn parse_defn_spec(s: SExp, ft: Map<Seq<char>, usize>) -> Result<
    (Seq<Seq<char>>, ExprV, Map<Seq<char>, usize>),
    CompileError,
>
    decreases s, 1int,
{
    match s {
        SExp::List(v) => {
            if v@.len() == 3 && sym_of(v@[0]) == Some("fun"@) {
                match v@[1] {
                    SExp::List(names) => {
                        if names@.len() == 0 {
                            Err(CompileError::Syntax)
                        } else {
                            match parse_names_spec(names@, 0) {
                                Ok(ns) => {
                                    if is_reserved(ns[0]) {
                                        Err(CompileError::ReservedName)
                                    } else if ft.contains_key(ns[0]) {
                                        Err(CompileError::DuplicateFunction)
                                    } else {
                                        match parse_expr_spec(v@[2]) {
                                            Ok(body) => Ok(
                                                (
                                                    ns,
                                                    body,
                                                    ft.insert(
                                                        ns[0],
                                                        (names@.len() - 1) as usize,
                                                    ),
                                                ),
                                            ),
                                            Err(c) => Err(c),
                                        }
                                    }
                                },
                                Err(c) => Err(c),
                            }
                        }
                    },
                    _ => Err(CompileError::Syntax),
                }
            } else {
                Err(CompileError::Syntax)
            }
        },
        _ => Err(CompileError::Syntax),
    }
}

/// The arity table after one `fun` form is processed: extended with the
/// function's arity once the form's shape, the name list, the reserved-word
/// check and the duplicate check have all passed — a body that fails to
/// parse fails only after the entry is in — and untouched on any earlier
/// failure.
pub open spec fn parse_defn_table_spec(s: SExp, ft: Map<Seq<char>, usize>) -> Map<
    Seq<char>,
    usize,
> {
    match s {
        SExp::List(v) => {
            if v@.len() == 3 && sym_of(v@[0]) == Some("fun"@) {
                match v@[1] {
                    SExp::List(names) => {
                        if names@.len() == 0 {
                            ft
                        } else {
                            match parse_names_spec(names@, 0) {
                                Ok(ns) => {
                                    if is_reserved(ns[0]) || ft.contains_key(ns[0]) {
                                        ft
                                    } else {
                                        ft.insert(ns[0], (names@.len() - 1) as usize)
                                    }
                                },
                                Err(_) => ft,
                            }
                        }
                    },
                    _ => ft,
                }
            } else {
                ft
            }
        },
        _ => ft,
    }
}

/// What the definitions before the last element parse to, threading the
/// arity table left to right.
pub open spec fn parse_defns_spec(v: Seq<SExp>, i: int, ft: Map<Seq<char>, usize>) -> Result<
    (Seq<StatementV>, Map<Seq<char>, usize>),
    CompileError,
>
    decreases v, v.len() - i,
{
    if 0 <= i < v.len() - 1 {
        match parse_defn_spec(v[i], ft) {
            Ok((ns, body, ft2)) => match parse_defns_spec(v, i + 1, ft2) {
                Ok((stmts, ft3)) => Ok((seq![StatementV::Definition(ns, body)] + stmts, ft3)),
                Err(c) => Err(c),
            },
            Err(c) => Err(c),
        }
    } else {
        Ok((Seq::<StatementV>::empty(), ft))
    }
}

/// What a whole program parses to: every element but the last is a
/// definition, the last is the terminal expression.
pub open spec fn parse_prog_spec(s: SExp, ft: Map<Seq<char>, usize>) -> Result<
    (Seq<StatementV>, Map<Seq<char>, usize>),
    CompileError,
>
    decreases s, 2int,
{
    match s {
        SExp::List(v) => {
            if v@.len() >= 1 {
                match parse_defns_spec(v@, 0, ft) {
                    Ok((stmts, ft2)) => match parse_expr_spec(v@[v@.len() - 1]) {
                        Ok(e) => Ok((stmts + seq![StatementV::Expression(e)], ft2)),
                        Err(c) => Err(c),
                    },
                    Err(c) => Err(c),
                }
            } else {
                Err(CompileError::Syntax)
            }
        },
        _ => Err(CompileError::Syntax),
    }
}

/// Parse the symbol atoms from position `i` on.
fn parse_names(v: &Vec<SExp>, i: usize) -> (r: Result<Vec<String>, CompileError>)
    requires
        i <= v@.len(),
    ensures
        match r {
            Ok(ns) => parse_names_spec(v@, i as int) == Ok::<Seq<Seq<char>>, CompileError>(
                names_vw(ns@),
            ),
            Err(c) => parse_names_spec(v@, i as int) == Err::<Seq<Seq<char>>, CompileError>(c),
        },
    decreases v@, v@.len() - i,
{
    if i < v.len() {
        match &v[i] {
            SExp::Sym(n) => {
                let mut rest = parse_names(v, i + 1)?;
                let ghost old_rest = rest@;
                rest.insert(0, n.clone());
                proof {
                    assert(names_vw(rest@) =~= seq![n@] + names_vw(old_rest));
                }
                Ok(rest)
            },
            _ => Err(CompileError::Syntax),
        }
    } else {
        proof {
            assert(names_vw(Seq::<String>::empty()) =~= Seq::<Seq<char>>::empty());
        }
        Ok(Vec::new())
    }
}

/// Parse one function definition, recording its arity in the table; the
/// table afterwards is exactly `parse_defn_table_spec`, whether or not the
/// definition is accepted.
pub fn parse_defn(s: &SExp, ft: &mut IndexMap) -> (r: Result<(Vec<String>, Expr), CompileError>)
    ensures
        indices_of(*final(ft)) == parse_defn_table_spec(*s, indices_of(*old(ft))),
        match r {
            Ok(p) => parse_defn_spec(*s, indices_of(*old(ft))) == Ok::<
                (Seq<Seq<char>>, ExprV, Map<Seq<char>, usize>),
                CompileError,
            >((names_vw(p.0@), expr_vw(p.1), indices_of(*final(ft)))),
            Err(c) => parse_defn_spec(*s, indices_of(*old(ft))) == Err::<
                (Seq<Seq<char>>, ExprV, Map<Seq<char>, usize>),
                CompileError,
            >(c),
        },
    decreases *s, 1int,
{
    let v: &Vec<SExp> = match s {
        SExp::List(v) => v,
        _ => {
            return Err(CompileError::Syntax);
        },
    };
    if v.len() != 3 {
        return Err(CompileError::Syntax);
    }
    match &v[0] {
        SExp::Sym(x) => {
            if !str_eq(x.as_str(), "fun") {
                return Err(CompileError::Syntax);
            }
        },
        _ => {
            return Err(CompileError::Syntax);
        },
    }
    let names: &Vec<SExp> = match &v[1] {
        SExp::List(names) => names,
        _ => {
            return Err(CompileError::Syntax);
        },
    };
    if names.len() == 0 {
        return Err(CompileError::Syntax);
    }
    let ns = parse_names(names, 0)?;
    proof {
        assert(names_vw(ns@).len() == ns@.len());
        assert(names_vw(ns@)[0] == ns@[0]@);
    }
    if crate::ast::reserved_name(ns[0].as_str()) {
        return Err(CompileError::ReservedName);
    }
    if crate::envmap::tbl_contains(ft, &ns[0]) {
        return Err(CompileError::DuplicateFunction);
    }
    crate::envmap::tbl_insert(ft, &ns[0], names.len() - 1);
    let body = parse_expr(&v[2])?;
    Ok((ns, body))
}

/// Parse the definitions before the last element, in order.
fn parse_defns(v: &Vec<SExp>, i: usize, ft: &mut IndexMap) -> (r: Result<
    Vec<Statement>,
    CompileError,
>)
    requires
        i <= v@.len(),
    ensures
        match r {
            Ok(stmts) => parse_defns_spec(v@, i as int, indices_of(*old(ft))) == Ok::<
                (Seq<StatementV>, Map<Seq<char>, usize>),
                CompileError,
            >((crate::ast::stmts_vw(stmts@), indices_of(*final(ft)))),
            Err(c) => parse_defns_spec(v@, i as int, indices_of(*old(ft))) == Err::<
                (Seq<StatementV>, Map<Seq<char>, usize>),
                CompileError,
            >(c),
        },
    decreases v@, v@.len() - i,
{
    if v.len() - i >= 2 {
        let p = parse_defn(&v[i], ft)?;
        let ghost pvw = StatementV::Definition(names_vw(p.0@), expr_vw(p.1));
        let mut rest = parse_defns(v, i + 1, ft)?;
        let ghost old_rest = rest@;
        rest.insert(0, Statement::Definition(p.0, Box::new(p.1)));
        proof {
            assert(crate::ast::stmts_vw(rest@) =~= seq![pvw] + crate::ast::stmts_vw(old_rest));
        }
        Ok(rest)
    } else {
        proof {
            assert(crate::ast::stmts_vw(Seq::<Statement>::empty()) =~= Seq::<
                StatementV,
            >::empty());
        }
        Ok(Vec::new())
    }
}

/// Parse a whole program: the definitions, then the terminal expression.
pub fn parse_prog(s: &SExp, ft: &mut IndexMap) -> (r: Result<Vec<Statement>, CompileError>)
    ensures
        match r {
            Ok(stmts) => parse_prog_spec(*s, indices_of(*old(ft))) == Ok::<
                (Seq<StatementV>, Map<Seq<char>, usize>),
                CompileError,
            >((crate::ast::stmts_vw(stmts@), indices_of(*final(ft)))),
            Err(c) => parse_prog_spec(*s, indices_of(*old(ft))) == Err::<
                (Seq<StatementV>, Map<Seq<char>, usize>),
                CompileError,
            >(c),
        },
{
    let v: &Vec<SExp> = match s {
        SExp::List(v) => v,
        _ => {
            return Err(CompileError::Syntax);
        },
    };
    if v.len() == 0 {
        return Err(CompileError::Syntax);
    }
    let mut stmts = parse_defns(v, 0, ft)?;
    let e = parse_expr(&v[v.len() - 1])?;
    let ghost old_stmts = stmts@;
    stmts.push(Statement::Expression(Box::new(e)));
    proof {
        assert(crate::ast::stmts_vw(stmts@) =~= crate::ast::stmts_vw(old_stmts) + seq![
            StatementV::Expression(expr_vw(e)),
        ]);
    }
    Ok(stmts)
}

} // verus!
