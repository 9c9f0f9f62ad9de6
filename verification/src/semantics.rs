//! A reference semantics for the source language, and the laws it proves.
//!
//! Evaluation is a ghost interpreter over mathematical values.  Fuel bounds
//! only the number of loop iterations and calls, so unfolding a control
//! construct costs nothing and laws relate evaluations at the same fuel.
//! The printed output of `print` is not modelled here; what printing emits
//! is stated by the runtime's own contracts.

use vstd::prelude::*;
use crate::ast::{Expr, Op1, Op2};
use crate::values::{in_num_range, is_tagged_num, tag_num, untag_num, MAX_NUM, MIN_NUM};

verus! {

/// A source value: an integer, a boolean, or `nil`.
pub enum Value {
    Num(int),
    Bool(bool),
    Nil,
}

/// The environment of one activation: the bindings in scope and the
/// definitions of the program.
pub struct Defs {
    pub table: Map<Seq<char>, (Seq<Seq<char>>, Expr)>,
}

/// How an evaluation step ends: a value or a propagating `break`, each with
/// the store after it; a trap; a stuck state the compiler would have
/// refused; or exhausted fuel.
pub enum Eval {
    Val(Value, Map<Seq<char>, Value>),
    Brk(Value, Map<Seq<char>, Value>),
    TypeTrap,
    OverflowTrap,
    Stuck,
    NoFuel,
}

/// Truthiness: everything but `false` takes the `then` branch.
pub open spec fn truthy(v: Value) -> bool {
    v != Value::Bool(false)
}

/// The result of a unary operator: `add1` and `sub1` trap on non-numbers
/// and on leaving the representable range; the predicates never trap.
pub open spec fn un_op(op: Op1, v: Value) -> Eval {
    match op {
        Op1::Add1 => match v {
            Value::Num(n) => if in_num_range(n + 1) {
                Eval::Val(Value::Num(n + 1), Map::empty())
            } else {
                Eval::OverflowTrap
            },
            _ => Eval::TypeTrap,
        },
        Op1::Sub1 => match v {
            Value::Num(n) => if in_num_range(n - 1) {
                Eval::Val(Value::Num(n - 1), Map::empty())
            } else {
                Eval::OverflowTrap
            },
            _ => Eval::TypeTrap,
        },
        Op1::IsNum => Eval::Val(Value::Bool(v matches Value::Num(_)), Map::empty()),
        Op1::IsBool => Eval::Val(Value::Bool(!(v matches Value::Num(_))), Map::empty()),
    }
}

/// The result of a binary operator on two values, left then right:
/// arithmetic and comparisons trap on non-numbers, arithmetic traps on
/// leaving the range, and `=` traps only when one side is a number and the
/// other is not.
pub open spec fn bin_op(op: Op2, a: Value, b: Value) -> Eval {
    match op {
        Op2::Eq => {
            match (a, b) {
                (Value::Num(x), Value::Num(y)) => Eval::Val(Value::Bool(x == y), Map::empty()),
                (Value::Num(_), _) => Eval::TypeTrap,
                (_, Value::Num(_)) => Eval::TypeTrap,
                _ => Eval::Val(Value::Bool(a == b), Map::empty()),
            }
        },
        _ => {
            match (a, b) {
                (Value::Num(x), Value::Num(y)) => match op {
                    Op2::Plus => if in_num_range(x + y) {
                        Eval::Val(Value::Num(x + y), Map::empty())
                    } else {
                        Eval::OverflowTrap
                    },
                    Op2::Minus => if in_num_range(x - y) {
                        Eval::Val(Value::Num(x - y), Map::empty())
                    } else {
                        Eval::OverflowTrap
                    },
                    Op2::Times => if in_num_range(x * y) {
                        Eval::Val(Value::Num(x * y), Map::empty())
                    } else {
                        Eval::OverflowTrap
                    },
                    Op2::Lt => Eval::Val(Value::Bool(x < y), Map::empty()),
                    Op2::Gt => Eval::Val(Value::Bool(x > y), Map::empty()),
                    Op2::Ge => Eval::Val(Value::Bool(x >= y), Map::empty()),
                    Op2::Le => Eval::Val(Value::Bool(x <= y), Map::empty()),
                    _ => Eval::Stuck,
                },
                _ => Eval::TypeTrap,
            }
        },
    }
}

/// Evaluate an expression.  `env` holds the bindings in scope, `input` the
/// program argument; fuel is spent only by `loop` iterations and calls.
pub open spec fn eval(
    e: Expr,
    input: Value,
    env: Map<Seq<char>, Value>,
    defs: Defs,
    fuel: nat,
) -> Eval
    decreases fuel, e, 0int,
{
    match e {
        Expr::Number(n) => if in_num_range(n as int) {
            Eval::Val(Value::Num(n as int), env)
        } else {
            Eval::Stuck
        },
        Expr::True => Eval::Val(Value::Bool(true), env),
        Expr::False => Eval::Val(Value::Bool(false), env),
        Expr::Input => Eval::Val(input, env),
        Expr::Id(x) => if env.contains_key(x@) {
            Eval::Val(env[x@], env)
        } else {
            Eval::Stuck
        },
        Expr::UnOp(op, sub) => {
            match eval(*sub, input, env, defs, fuel) {
                Eval::Val(v, env1) => match un_op(op, v) {
                    Eval::Val(r, _) => Eval::Val(r, env1),
                    other => other,
                },
                other => other,
            }
        },
        Expr::BinOp(op, e1, e2) => {
            match eval(*e2, input, env, defs, fuel) {
                Eval::Val(v2, env1) => match eval(*e1, input, env1, defs, fuel) {
                    Eval::Val(v1, env2) => match bin_op(op, v1, v2) {
                        Eval::Val(r, _) => Eval::Val(r, env2),
                        other => other,
                    },
                    other => other,
                },
                other => other,
            }
        },
        Expr::Let(binds, body) => {
            match eval_binds(binds@, 0, input, env, defs, fuel) {
                Eval::Val(_, env1) => eval(*body, input, env1, defs, fuel),
                other => other,
            }
        },
        Expr::SetVar(x, sub) => {
            if !env.contains_key(x@) {
                Eval::Stuck
            } else {
                match eval(*sub, input, env, defs, fuel) {
                    Eval::Val(v, env1) => Eval::Val(v, env1.insert(x@, v)),
                    other => other,
                }
            }
        },
        Expr::If(c, t, f) => {
            match eval(*c, input, env, defs, fuel) {
                Eval::Val(v, env1) => if truthy(v) {
                    eval(*t, input, env1, defs, fuel)
                } else {
                    eval(*f, input, env1, defs, fuel)
                },
                other => other,
            }
        },
        Expr::Block(es) => eval_block(es@, 0, Value::Nil, input, env, defs, fuel),
        Expr::Loop(body) => {
            if fuel == 0 {
                Eval::NoFuel
            } else {
                match eval(*body, input, env, defs, (fuel - 1) as nat) {
                    Eval::Val(_, env1) => eval(Expr::Loop(body), input, env1, defs, (fuel
                        - 1) as nat),
                    Eval::Brk(v, env1) => Eval::Val(v, env1),
                    other => other,
                }
            }
        },
        Expr::Break(sub) => {
            match eval(*sub, input, env, defs, fuel) {
                Eval::Val(v, env1) => Eval::Brk(v, env1),
                other => other,
            }
        },
        Expr::FuncCall(f, args) => {
            if f@ == "print"@ {
                if args@.len() != 1 {
                    Eval::Stuck
                } else {
                    eval(args@[0], input, env, defs, fuel)
                }
            } else if !defs.table.contains_key(f@) {
                Eval::Stuck
            } else if defs.table[f@].0.len() != args@.len() {
                Eval::Stuck
            } else if fuel == 0 {
                Eval::NoFuel
            } else {
                match eval_args(args@, args@.len() as int, input, env, defs, fuel) {
                    EvalA::Vals(vs, env1) => {
                        match eval(
                            defs.table[f@].1,
                            input,
                            bind_params(defs.table[f@].0, vs),
                            defs,
                            (fuel - 1) as nat,
                        ) {
                            Eval::Val(v, _) => Eval::Val(v, env1),
                            Eval::Brk(_, _) => Eval::Stuck,
                            other => other,
                        }
                    },
                    EvalA::Fail(o) => o,
                }
            }
        },
    }
}

/// Evaluate the bindings from position `i` on, left to right, each entering
/// scope only after its initialiser.
pub open spec fn eval_binds(
    bs: Seq<(String, Expr)>,
    i: int,
    input: Value,
    env: Map<Seq<char>, Value>,
    defs: Defs,
    fuel: nat,
) -> Eval
    decreases fuel, bs, bs.len() - i,
{
    if 0 <= i < bs.len() {
        match eval(bs[i].1, input, env, defs, fuel) {
            Eval::Val(v, env1) => eval_binds(bs, i + 1, input, env1.insert(bs[i].0@, v), defs, fuel),
            other => other,
        }
    } else {
        Eval::Val(Value::Nil, env)
    }
}

/// Evaluate the expressions from position `i` on, keeping the last value.
pub open spec fn eval_block(
    es: Seq<Expr>,
    i: int,
    last: Value,
    input: Value,
    env: Map<Seq<char>, Value>,
    defs: Defs,
    fuel: nat,
) -> Eval
    decreases fuel, es, es.len() - i,
{
    if 0 <= i < es.len() {
        match eval(es[i], input, env, defs, fuel) {
            Eval::Val(v, env1) => eval_block(es, i + 1, v, input, env1, defs, fuel),
            other => other,
        }
    } else {
        Eval::Val(last, env)
    }
}

/// How evaluating a call's arguments ends: their values in argument order
/// with the store they leave, or the outcome that stopped them.
pub enum EvalA {
    Vals(Seq<Value>, Map<Seq<char>, Value>),
    Fail(Eval),
}

/// Evaluate the first `j` arguments of a call, last of them first, giving
/// their values in argument order.
pub open spec fn eval_args(
    args: Seq<Expr>,
    j: int,
    input: Value,
    env: Map<Seq<char>, Value>,
    defs: Defs,
    fuel: nat,
) -> EvalA
    decreases fuel, args, j,
{
    if 0 < j <= args.len() {
        match eval(args[j - 1], input, env, defs, fuel) {
            Eval::Val(v, env1) => match eval_args(args, j - 1, input, env1, defs, fuel) {
                EvalA::Vals(vs, env2) => EvalA::Vals(vs.push(v), env2),
                fail => fail,
            },
            other => EvalA::Fail(other),
        }
    } else {
        EvalA::Vals(Seq::<Value>::empty(), env)
    }
}

/// The fresh scope of a callee: each parameter bound to its argument.
pub open spec fn bind_params(params: Seq<Seq<char>>, vs: Seq<Value>) -> Map<Seq<char>, Value>
    decreases vs.len(),
{
    if vs.len() == 0 || params.len() < vs.len() + 1 {
        Map::empty()
    } else {
        bind_params(params, vs.drop_last()).insert(params[vs.len() as int], vs.last())
    }
}

/// Every integer a non-trapping evaluation yields is representable, and its
/// tagged form has a clear low bit and halves back to the integer.
pub proof fn lemma_tagged_result(e: Expr, input: Value, env: Map<Seq<char>, Value>, defs: Defs, fuel: nat, n: int)
    requires
        eval(e, input, env, defs, fuel) matches Eval::Val(v, _) && v == Value::Num(n),
        in_num_range(n),
    ensures
        is_tagged_num(tag_num(n)),
        untag_num(tag_num(n)) == n,
        ((2 * (n as i64)) as i64) & 1 == 0,
{
    crate::values::lemma_num_tag_roundtrip(n as i64);
}

/// For a boolean literal `b`, the expression `(= b b)` evaluates to `true`.
pub proof fn lemma_eq_reflexive_bool(
    b: bool,
    input: Value,
    env: Map<Seq<char>, Value>,
    defs: Defs,
    fuel: nat,
)
    ensures
        eval(
            Expr::BinOp(
                Op2::Eq,
                Box::new(if b { Expr::True } else { Expr::False }),
                Box::new(if b { Expr::True } else { Expr::False }),
            ),
            input,
            env,
            defs,
            fuel,
        ) == Eval::Val(Value::Bool(true), env),
{
    reveal_with_fuel(eval, 3);
}

/// `(if true A B)` evaluates exactly as `A` does, whatever `A` and `B` are,
/// and `(if false A B)` exactly as `B` does.
pub proof fn lemma_if_literal(
    a: Expr,
    b: Expr,
    input: Value,
    env: Map<Seq<char>, Value>,
    defs: Defs,
    fuel: nat,
)
    ensures
        eval(
            Expr::If(Box::new(Expr::True), Box::new(a), Box::new(b)),
            input,
            env,
            defs,
            fuel,
        ) == eval(a, input, env, defs, fuel),
        eval(
            Expr::If(Box::new(Expr::False), Box::new(a), Box::new(b)),
            input,
            env,
            defs,
            fuel,
        ) == eval(b, input, env, defs, fuel),
{
    reveal_with_fuel(eval, 3);
}

/// `add1` on the largest representable integer traps with overflow, and
/// `sub1` on the smallest does too.
pub proof fn lemma_add1_overflow(input: Value, env: Map<Seq<char>, Value>, defs: Defs, fuel: nat)
    ensures
        eval(
            Expr::UnOp(Op1::Add1, Box::new(Expr::Number(MAX_NUM))),
            input,
            env,
            defs,
            fuel,
        ) == Eval::OverflowTrap,
        eval(
            Expr::UnOp(Op1::Sub1, Box::new(Expr::Number(MIN_NUM))),
            input,
            env,
            defs,
            fuel,
        ) == Eval::OverflowTrap,
{
    reveal_with_fuel(eval, 3);
}

} // verus!
