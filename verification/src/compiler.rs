//! The code generator: lowering expressions to the instruction stream.
//!
//! Every executable function here is specified by a ghost mirror over views:
//! the mirror states, for each expression, exactly which instructions come
//! out, how the label counter moves, and which programs are refused with
//! which error.  The register discipline: `rax` carries
//! the current result, `rbx` is scratch for equality's tag check, `rdi`
//! holds the program input, and one stack slot per `si` parks intermediate
//! values at `[rsp + 8*si]`.

use vstd::prelude::*;
use vstd::string::StringExecFns;
use crate::ast::{
    binds_sz, expr_sz, exprs_sz, is_reserved, CompileError, Expr, Op1, Op2,
};
use crate::ast::Statement;
use crate::depth::{depth_spec, MAX_EXPR_SIZE};
use crate::emit::{instrs_str, label_name, make_label};
use crate::numfmt::{str_of_nat, u64_to_string};
use crate::envmap::{indices_of, offsets_of, IndexMap, OffsetMap};
use crate::instr::{instrs_vw, Instr, InstrV, Label, LabelV, Reg, Val, ValV};
use crate::values::{MAX_NUM, MIN_NUM};

verus! {

/// The result register.
pub open spec fn vrax() -> ValV {
    ValV::Reg(Reg::Rax)
}

/// The scratch register.
pub open spec fn vrbx() -> ValV {
    ValV::Reg(Reg::Rbx)
}

/// The stack pointer.
pub open spec fn vrsp() -> ValV {
    ValV::Reg(Reg::Rsp)
}

/// The input register.
pub open spec fn vrdi() -> ValV {
    ValV::Reg(Reg::Rdi)
}

/// An immediate operand.
pub open spec fn imm(n: int) -> ValV {
    ValV::Imm(n)
}

/// The stack word `off` bytes above the stack pointer.
pub open spec fn soff(off: int) -> ValV {
    ValV::RegOffset(off)
}

/// The stack word `off` bytes below the stack pointer: the staging area of
/// a call in the making.
pub open spec fn sonset(off: int) -> ValV {
    ValV::RegOnset(off)
}

/// The numbered label the counter value `l` names.
pub open spec fn lnum(l: int) -> LabelV {
    LabelV::LName(label_name(l))
}

/// The tag check guarding arithmetic: trap unless `rax` holds a number.
pub open spec fn num_check() -> Seq<InstrV> {
    seq![InstrV::Test(vrax(), imm(1)), InstrV::Jne(LabelV::TypeError)]
}

/// The jump a comparison compiles to.
pub open spec fn cmp_jump(op: Op2, l: LabelV) -> InstrV {
    match op {
        Op2::Lt => InstrV::Jl(l),
        Op2::Gt => InstrV::Jg(l),
        Op2::Ge => InstrV::Jge(l),
        Op2::Le => InstrV::Jle(l),
        _ => InstrV::Je(l),
    }
}

/// What a comparison emits after both operands are in place: compare, jump
/// on success to the true branch, else load `false`; labels `l` and `l + 1`
/// are claimed.
pub open spec fn cmp_instrs(op: Op2, si: int, l: int) -> Seq<InstrV> {
    seq![
        InstrV::Cmp(vrax(), soff(8 * si)),
        cmp_jump(op, lnum(l)),
        InstrV::IMov(vrax(), imm(3)),
        InstrV::Jmp(lnum(l + 1)),
        InstrV::Nothing(lnum(l)),
        InstrV::IMov(vrax(), imm(7)),
        InstrV::Nothing(lnum(l + 1)),
    ]
}

/// Every name a scope map binds lies in the slots below `si`.
pub open spec fn env_ok(env: Map<Seq<char>, i64>, si: int) -> bool {
    forall|k: Seq<char>| env.contains_key(k) ==> 0 <= env[k] && env[k] < 8 * si
}

/// Every argument position a parameter map holds is within the machine
/// bound.
pub open spec fn vargs_ok(vargs: Map<Seq<char>, usize>) -> bool {
    forall|k: Seq<char>| vargs.contains_key(k) ==> vargs[k] <= MAX_EXPR_SIZE
}

/// What an expression compiles to: the instructions and the label counter
/// after them, or the error that refuses the program.  `si` is the next
/// free slot, `env` the scope map, `vargs` the parameter positions,
/// `ftable` the arity table, `l` the label counter, `bl` the `break`
/// target (-1 outside any loop), and `dep` the activation-record depth.
pub open spec fn compile_spec(
    e: Expr,
    si: int,
    env: Map<Seq<char>, i64>,
    vargs: Map<Seq<char>, usize>,
    ftable: Map<Seq<char>, usize>,
    l: int,
    bl: int,
    dep: int,
) -> Result<(Seq<InstrV>, int), CompileError>
    decreases e, 0int,
{
    match e {
        Expr::Number(n) => {
            if n < MIN_NUM || n > MAX_NUM {
                Err(CompileError::NumberOutOfRange)
            } else {
                Ok((seq![InstrV::IMov(vrax(), imm(2 * n))], l))
            }
        },
        Expr::True => Ok((seq![InstrV::IMov(vrax(), imm(7))], l)),
        Expr::False => Ok((seq![InstrV::IMov(vrax(), imm(3))], l)),
        Expr::Input => Ok((seq![InstrV::IMov(vrax(), vrdi())], l)),
        Expr::Id(x) => {
            if is_reserved(x@) {
                Err(CompileError::Keyword)
            } else if env.contains_key(x@) {
                Ok((seq![InstrV::IMov(vrax(), soff(env[x@] as int))], l))
            } else if vargs.contains_key(x@) {
                Ok((seq![InstrV::IMov(vrax(), soff(8 * (vargs[x@] + dep + 1)))], l))
            } else {
                Err(CompileError::UnboundIdentifier)
            }
        },
        Expr::UnOp(op, sub) => {
            match compile_spec(*sub, si, env, vargs, ftable, l, bl, dep) {
                Err(c) => Err(c),
                Ok((ins, l1)) => match op {
                    Op1::Add1 => Ok(
                        (
                            ins + num_check() + seq![
                                InstrV::IAdd(vrax(), imm(2)),
                                InstrV::Jo(LabelV::Overflow),
                            ],
                            l1,
                        ),
                    ),
                    Op1::Sub1 => Ok(
                        (
                            ins + num_check() + seq![
                                InstrV::ISub(vrax(), imm(2)),
                                InstrV::Jo(LabelV::Overflow),
                            ],
                            l1,
                        ),
                    ),
                    Op1::IsNum => Ok(
                        (
                            ins + seq![
                                InstrV::Test(vrax(), imm(1)),
                                InstrV::Jne(lnum(l1)),
                                InstrV::IMov(vrax(), imm(7)),
                                InstrV::Jmp(lnum(l1 + 1)),
                                InstrV::Nothing(lnum(l1)),
                                InstrV::IMov(vrax(), imm(3)),
                                InstrV::Nothing(lnum(l1 + 1)),
                            ],
                            l1 + 2,
                        ),
                    ),
                    Op1::IsBool => Ok(
                        (
                            ins + seq![
                                InstrV::Test(vrax(), imm(1)),
                                InstrV::Jne(lnum(l1)),
                                InstrV::IMov(vrax(), imm(3)),
                                InstrV::Jmp(lnum(l1 + 1)),
                                InstrV::Nothing(lnum(l1)),
                                InstrV::IMov(vrax(), imm(7)),
                                InstrV::Nothing(lnum(l1 + 1)),
                            ],
                            l1 + 2,
                        ),
                    ),
                },
            }
        },
        Expr::BinOp(op, e1, e2) => {
            match compile_spec(*e2, si, env, vargs, ftable, l, bl, dep) {
                Err(c) => Err(c),
                Ok((ins2, l2)) => {
                    let check2 = if (op matches Op2::Eq) {
                        Seq::<InstrV>::empty()
                    } else {
                        num_check()
                    };
                    let store = seq![InstrV::IMov(soff(8 * si), vrax())];
                    match compile_spec(*e1, si + 1, env, vargs, ftable, l2, bl, dep) {
                        Err(c) => Err(c),
                        Ok((ins1, l1)) => {
                            let check1 = if (op matches Op2::Eq) {
                                seq![
                                    InstrV::IMov(vrbx(), imm(0)),
                                    InstrV::Xor(vrbx(), vrax()),
                                    InstrV::Xor(vrbx(), soff(8 * si)),
                                    InstrV::Test(vrbx(), imm(1)),
                                    InstrV::Jne(LabelV::TypeError),
                                ]
                            } else {
                                num_check()
                            };
                            let prefix = ins2 + check2 + store + ins1 + check1;
                            match op {
                                Op2::Plus => Ok(
                                    (
                                        prefix + seq![
                                            InstrV::IAdd(vrax(), soff(8 * si)),
                                            InstrV::Jo(LabelV::Overflow),
                                        ],
                                        l1,
                                    ),
                                ),
                                Op2::Minus => Ok(
                                    (
                                        prefix + seq![
                                            InstrV::ISub(vrax(), soff(8 * si)),
                                            InstrV::Jo(LabelV::Overflow),
                                        ],
                                        l1,
                                    ),
                                ),
                                Op2::Times => Ok(
                                    (
                                        prefix + seq![
                                            InstrV::Sar(vrax(), imm(1)),
                                            InstrV::IMul(vrax(), soff(8 * si)),
                                            InstrV::Jo(LabelV::Overflow),
                                        ],
                                        l1,
                                    ),
                                ),
                                _ => Ok((prefix + cmp_instrs(op, si, l1), l1 + 2)),
                            }
                        },
                    }
                },
            }
        },
        Expr::Let(binds, body) => {
            match compile_binds_spec(binds@, 0, si, env, env, vargs, ftable, l, bl, dep) {
                Err(c) => Err(c),
                Ok((insb, envf, nsif, l2)) => {
                    match compile_spec(*body, nsif, envf, vargs, ftable, l2, bl, dep) {
                        Err(c) => Err(c),
                        Ok((insbody, lf)) => Ok((insb + insbody, lf)),
                    }
                },
            }
        },
        Expr::SetVar(x, sub) => {
            if is_reserved(x@) {
                Err(CompileError::Keyword)
            } else if !env.contains_key(x@) {
                Err(CompileError::UnboundIdentifier)
            } else {
                match compile_spec(*sub, si, env, vargs, ftable, l, bl, dep) {
                    Err(c) => Err(c),
                    Ok((ins, l1)) => Ok(
                        (ins + seq![InstrV::IMov(soff(env[x@] as int), vrax())], l1),
                    ),
                }
            }
        },
        Expr::If(e1, e2, e3) => {
            match compile_spec(*e1, si, env, vargs, ftable, l, bl, dep) {
                Err(c) => Err(c),
                Ok((i1, l1)) => match compile_spec(*e2, si, env, vargs, ftable, l1, bl, dep) {
                    Err(c) => Err(c),
                    Ok((i2, l2)) => match compile_spec(*e3, si, env, vargs, ftable, l2, bl, dep) {
                        Err(c) => Err(c),
                        Ok((i3, l3)) => Ok(
                            (
                                i1 + seq![
                                    InstrV::Cmp(vrax(), imm(3)),
                                    InstrV::Je(lnum(l3)),
                                ] + i2 + seq![
                                    InstrV::Jmp(lnum(l3 + 1)),
                                    InstrV::Nothing(lnum(l3)),
                                ] + i3 + seq![InstrV::Nothing(lnum(l3 + 1))],
                                l3 + 2,
                            ),
                        ),
                    },
                },
            }
        },
        Expr::Block(es) => compile_seq_spec(es@, 0, si, env, vargs, ftable, l, bl, dep),
        Expr::Loop(body) => {
            match compile_spec(*body, si, env, vargs, ftable, l + 2, l + 1, dep) {
                Err(c) => Err(c),
                Ok((ins, l2)) => Ok(
                    (
                        seq![InstrV::Nothing(lnum(l))] + ins + seq![
                            InstrV::Jmp(lnum(l)),
                            InstrV::Nothing(lnum(l + 1)),
                        ],
                        l2,
                    ),
                ),
            }
        },
        Expr::Break(sub) => {
            if bl == -1 {
                Err(CompileError::BreakOutsideLoop)
            } else {
                match compile_spec(*sub, si, env, vargs, ftable, l, bl, dep) {
                    Err(c) => Err(c),
                    Ok((ins, l1)) => Ok((ins + seq![InstrV::Jmp(lnum(bl))], l1)),
                }
            }
        },
        Expr::FuncCall(f, args) => {
            if f@ == "print"@ {
                if args@.len() != 1 {
                    Err(CompileError::WrongArity)
                } else {
                    match compile_spec(args@[0], si, env, vargs, ftable, l, bl, dep) {
                        Err(c) => Err(c),
                        Ok((ins, l1)) => Ok(
                            (
                                ins + seq![
                                    InstrV::Push(vrdi()),
                                    InstrV::IMov(vrdi(), vrax()),
                                    InstrV::Push(vrax()),
                                    InstrV::Call(LabelV::LName("snek_print"@)),
                                    InstrV::Pop(vrax()),
                                    InstrV::Pop(vrdi()),
                                ],
                                l1,
                            ),
                        ),
                    }
                }
            } else if !ftable.contains_key(f@) {
                Err(CompileError::UnknownFunction)
            } else if ftable[f@] != args@.len() {
                Err(CompileError::WrongArity)
            } else {
                match compile_args_spec(args@, args@.len() as int, si, env, vargs, ftable, l, bl, dep) {
                    Err(c) => Err(c),
                    Ok((insa, l1)) => Ok(
                        (
                            seq![InstrV::IMov(sonset(8), vrdi())] + insa + seq![
                                InstrV::ISub(vrsp(), imm(8 * args@.len() as int + 8)),
                                InstrV::Call(LabelV::LName(f@)),
                                InstrV::IAdd(vrsp(), imm(8 * args@.len() as int + 8)),
                                InstrV::IMov(vrdi(), sonset(8)),
                            ],
                            l1,
                        ),
                    ),
                }
            }
        },
    }
}

/// What the bindings from position `i` on compile to: each initialiser is
/// lowered in the scope built so far, stored in the next slot, and only
/// then enters scope.  A binding of a name the same `let` already bound
/// (`env0` is the scope outside the `let`) is refused, as is a reserved
/// word.  Gives back the instructions, the final scope, the next free
/// slot, and the label counter.
pub open spec fn compile_binds_spec(
    bs: Seq<(String, Expr)>,
    i: int,
    nsi: int,
    nenv: Map<Seq<char>, i64>,
    env0: Map<Seq<char>, i64>,
    vargs: Map<Seq<char>, usize>,
    ftable: Map<Seq<char>, usize>,
    l: int,
    bl: int,
    dep: int,
) -> Result<(Seq<InstrV>, Map<Seq<char>, i64>, int, int), CompileError>
    decreases bs, bs.len() - i,
{
    if 0 <= i < bs.len() {
        let x = bs[i].0;
        if is_reserved(x@) {
            Err(CompileError::Keyword)
        } else if nenv.contains_key(x@) && !env0.contains_key(x@) {
            Err(CompileError::DuplicateBinding)
        } else {
            match compile_spec(bs[i].1, nsi, nenv, vargs, ftable, l, bl, dep) {
                Err(c) => Err(c),
                Ok((ins, l2)) => {
                    match compile_binds_spec(
                        bs,
                        i + 1,
                        nsi + 1,
                        nenv.insert(x@, (8 * nsi) as i64),
                        env0,
                        vargs,
                        ftable,
                        l2,
                        bl,
                        dep,
                    ) {
                        Err(c) => Err(c),
                        Ok((insr, envf, nsif, lf)) => Ok(
                            (
                                ins + seq![InstrV::IMov(soff(8 * nsi), vrax())] + insr,
                                envf,
                                nsif,
                                lf,
                            ),
                        ),
                    }
                },
            }
        }
    } else {
        Ok((Seq::<InstrV>::empty(), nenv, nsi, l))
    }
}

/// What the expressions from position `i` on compile to, in order, each
/// overwriting the last result.
pub open spec fn compile_seq_spec(
    es: Seq<Expr>,
    i: int,
    si: int,
    env: Map<Seq<char>, i64>,
    vargs: Map<Seq<char>, usize>,
    ftable: Map<Seq<char>, usize>,
    l: int,
    bl: int,
    dep: int,
) -> Result<(Seq<InstrV>, int), CompileError>
    decreases es, es.len() - i,
{
    if 0 <= i < es.len() {
        match compile_spec(es[i], si, env, vargs, ftable, l, bl, dep) {
            Err(c) => Err(c),
            Ok((ins, l2)) => match compile_seq_spec(es, i + 1, si, env, vargs, ftable, l2, bl, dep) {
                Err(c) => Err(c),
                Ok((insr, lf)) => Ok((ins + insr, lf)),
            },
        }
    } else {
        Ok((Seq::<InstrV>::empty(), l))
    }
}

/// What the last `j` arguments of a call compile to: arguments are lowered
/// last first, each parked in the staging area below the stack pointer at
/// `[rsp - (16 + 8*idx)]` where `idx` counts from the last argument; a
/// `break` in an argument jumps to the enclosing loop's target.
pub open spec fn compile_args_spec(
    args: Seq<Expr>,
    j: int,
    si: int,
    env: Map<Seq<char>, i64>,
    vargs: Map<Seq<char>, usize>,
    ftable: Map<Seq<char>, usize>,
    l: int,
    bl: int,
    dep: int,
) -> Result<(Seq<InstrV>, int), CompileError>
    decreases args, j,
{
    if 0 < j <= args.len() {
        match compile_spec(args[j - 1], si, env, vargs, ftable, l, bl, dep) {
            Err(c) => Err(c),
            Ok((ins, l2)) => {
                let idx = args.len() - j;
                match compile_args_spec(args, j - 1, si, env, vargs, ftable, l2, bl, dep) {
                    Err(c) => Err(c),
                    Ok((insr, lf)) => Ok(
                        (ins + seq![InstrV::IMov(sonset(8 * idx + 16), vrax())] + insr, lf),
                    ),
                }
            },
        }
    } else {
        Ok((Seq::<InstrV>::empty(), l))
    }
}

/// The suffix sums of expression sizes shrink as the start moves right.
proof fn lemma_exprs_sz_mono(es: Seq<Expr>, a: int, b: int)
    requires
        0 <= a <= b <= es.len(),
    ensures
        exprs_sz(es, a) >= exprs_sz(es, b),
    decreases b - a,
{
    if a < b {
        lemma_exprs_sz_mono(es, a + 1, b);
    }
}

/// The bundle of machine bounds every lowering step carries: the next slot
/// and the remaining node budget stay inside `MAX_EXPR_SIZE`, every scope
/// offset lies below the next slot, parameter positions are bounded, and
/// the label counter has room for two labels per node.
pub open spec fn compile_pre(
    budget: nat,
    si: int,
    env: Map<Seq<char>, i64>,
    vargs: Map<Seq<char>, usize>,
    dep: int,
    l: int,
    bl: int,
) -> bool {
    &&& 0 <= si
    &&& si + budget <= MAX_EXPR_SIZE as int
    &&& env_ok(env, si)
    &&& vargs_ok(vargs)
    &&& 0 <= dep <= MAX_EXPR_SIZE as int + 2
    &&& 0 <= l
    &&& l + 2 * budget <= i64::MAX as int
    &&& bl >= -1
}

/// The instructions a comparison ends with.
fn cmp_code(op: Op2, si: i64, lc: i64) -> (r: Vec<Instr>)
    requires
        0 <= si <= MAX_EXPR_SIZE,
        0 <= lc < i64::MAX,
    ensures
        instrs_vw(r@) == cmp_instrs(op, si as int, lc as int),
{
    let mut v: Vec<Instr> = Vec::new();
    v.push(Instr::Cmp(Val::Reg(Reg::Rax), Val::RegOffset(si * 8)));
    let jmp = match op {
        Op2::Lt => Instr::Jl(Label::LName(make_label(lc))),
        Op2::Gt => Instr::Jg(Label::LName(make_label(lc))),
        Op2::Ge => Instr::Jge(Label::LName(make_label(lc))),
        Op2::Le => Instr::Jle(Label::LName(make_label(lc))),
        _ => Instr::Je(Label::LName(make_label(lc))),
    };
    v.push(jmp);
    v.push(Instr::IMov(Val::Reg(Reg::Rax), Val::Imm(3)));
    v.push(Instr::Jmp(Label::LName(make_label(lc + 1))));
    v.push(Instr::Nothing(Label::LName(make_label(lc))));
    v.push(Instr::IMov(Val::Reg(Reg::Rax), Val::Imm(7)));
    v.push(Instr::Nothing(Label::LName(make_label(lc + 1))));
    proof {
        assert(instrs_vw(v@) =~= cmp_instrs(op, si as int, lc as int));
    }
    v
}

/// Lower one expression to instructions, advancing the label counter.
#[verifier::rlimit(100)]
#[verifier::spinoff_prover]
pub fn compile_to_instrs(
    e: &Expr,
    si: i64,
    env: &OffsetMap,
    v_args: &IndexMap,
    func_table: &IndexMap,
    l: &mut i64,
    bl: i64,
    dep: usize,
) -> (r: Result<Vec<Instr>, CompileError>)
    requires
        compile_pre(
            expr_sz(*e),
            si as int,
            offsets_of(*env),
            indices_of(*v_args),
            dep as int,
            *old(l) as int,
            bl as int,
        ),
    ensures
        *old(l) <= *final(l),
        *final(l) as int <= *old(l) as int + 2 * expr_sz(*e),
        match r {
            Ok(v) => compile_spec(
                *e,
                si as int,
                offsets_of(*env),
                indices_of(*v_args),
                indices_of(*func_table),
                *old(l) as int,
                bl as int,
                dep as int,
            ) == Ok::<(Seq<InstrV>, int), CompileError>((instrs_vw(v@), *final(l) as int)),
            Err(c) => compile_spec(
                *e,
                si as int,
                offsets_of(*env),
                indices_of(*v_args),
                indices_of(*func_table),
                *old(l) as int,
                bl as int,
                dep as int,
            ) == Err::<(Seq<InstrV>, int), CompileError>(c),
        },
    decreases *e, 0int,
{
    match e {
        Expr::Number(n) => {
            if *n < MIN_NUM || *n > MAX_NUM {
                Err(CompileError::NumberOutOfRange)
            } else {
                let mut v: Vec<Instr> = Vec::new();
                v.push(Instr::IMov(Val::Reg(Reg::Rax), Val::Imm(*n * 2)));
                proof {
                    assert(instrs_vw(v@) =~= seq![InstrV::IMov(vrax(), imm(2 * *n))]);
                }
                Ok(v)
            }
        },
        Expr::True => {
            let mut v: Vec<Instr> = Vec::new();
            v.push(Instr::IMov(Val::Reg(Reg::Rax), Val::Imm(7)));
            proof {
                assert(instrs_vw(v@) =~= seq![InstrV::IMov(vrax(), imm(7))]);
            }
            Ok(v)
        },
        Expr::False => {
            let mut v: Vec<Instr> = Vec::new();
            v.push(Instr::IMov(Val::Reg(Reg::Rax), Val::Imm(3)));
            proof {
                assert(instrs_vw(v@) =~= seq![InstrV::IMov(vrax(), imm(3))]);
            }
            Ok(v)
        },
        Expr::Input => {
            let mut v: Vec<Instr> = Vec::new();
            v.push(Instr::IMov(Val::Reg(Reg::Rax), Val::Reg(Reg::Rdi)));
            proof {
                assert(instrs_vw(v@) =~= seq![InstrV::IMov(vrax(), vrdi())]);
            }
            Ok(v)
        },
        Expr::Id(x) => {
            if crate::ast::reserved_name(x.as_str()) {
                return Err(CompileError::Keyword);
            }
            match crate::envmap::env_get(env, x) {
                Some(off) => {
                    let mut v: Vec<Instr> = Vec::new();
                    v.push(Instr::IMov(Val::Reg(Reg::Rax), Val::RegOffset(off)));
                    proof {
                        assert(instrs_vw(v@) =~= seq![
                            InstrV::IMov(vrax(), soff(offsets_of(*env)[x@] as int)),
                        ]);
                    }
                    Ok(v)
                },
                None => match crate::envmap::tbl_get(v_args, x) {
                    Some(idx) => {
                        let off: i64 = ((idx as i64) + (dep as i64) + 1) * 8;
                        let mut v: Vec<Instr> = Vec::new();
                        v.push(Instr::IMov(Val::Reg(Reg::Rax), Val::RegOffset(off)));
                        proof {
                            assert(instrs_vw(v@) =~= seq![
                                InstrV::IMov(
                                    vrax(),
                                    soff(8 * (indices_of(*v_args)[x@] + dep + 1)),
                                ),
                            ]);
                        }
                        Ok(v)
                    },
                    None => Err(CompileError::UnboundIdentifier),
                },
            }
        },
        Expr::UnOp(op, sub) => {
            let mut v = compile_to_instrs(sub, si, env, v_args, func_table, l, bl, dep)?;
            let ghost sub_vw = instrs_vw(v@);
            match op {
                Op1::Add1 => {
                    v.push(Instr::Test(Val::Reg(Reg::Rax), Val::Imm(1)));
                    v.push(Instr::Jne(Label::TypeError));
                    v.push(Instr::IAdd(Val::Reg(Reg::Rax), Val::Imm(2)));
                    v.push(Instr::Jo(Label::Overflow));
                    proof {
                        assert(instrs_vw(v@) =~= sub_vw + num_check() + seq![
                            InstrV::IAdd(vrax(), imm(2)),
                            InstrV::Jo(LabelV::Overflow),
                        ]);
                    }
                },
                Op1::Sub1 => {
                    v.push(Instr::Test(Val::Reg(Reg::Rax), Val::Imm(1)));
                    v.push(Instr::Jne(Label::TypeError));
                    v.push(Instr::ISub(Val::Reg(Reg::Rax), Val::Imm(2)));
                    v.push(Instr::Jo(Label::Overflow));
                    proof {
                        assert(instrs_vw(v@) =~= sub_vw + num_check() + seq![
                            InstrV::ISub(vrax(), imm(2)),
                            InstrV::Jo(LabelV::Overflow),
                        ]);
                    }
                },
                Op1::IsNum => {
                    let cur = *l;
                    v.push(Instr::Test(Val::Reg(Reg::Rax), Val::Imm(1)));
                    v.push(Instr::Jne(Label::LName(make_label(cur))));
                    v.push(Instr::IMov(Val::Reg(Reg::Rax), Val::Imm(7)));
                    v.push(Instr::Jmp(Label::LName(make_label(cur + 1))));
                    v.push(Instr::Nothing(Label::LName(make_label(cur))));
                    v.push(Instr::IMov(Val::Reg(Reg::Rax), Val::Imm(3)));
                    v.push(Instr::Nothing(Label::LName(make_label(cur + 1))));
                    *l = cur + 2;
                    proof {
                        assert(instrs_vw(v@) =~= sub_vw + seq![
                            InstrV::Test(vrax(), imm(1)),
                            InstrV::Jne(lnum(cur as int)),
                            InstrV::IMov(vrax(), imm(7)),
                            InstrV::Jmp(lnum(cur as int + 1)),
                            InstrV::Nothing(lnum(cur as int)),
                            InstrV::IMov(vrax(), imm(3)),
                            InstrV::Nothing(lnum(cur as int + 1)),
                        ]);
                    }
                },
                Op1::IsBool => {
                    let cur = *l;
                    v.push(Instr::Test(Val::Reg(Reg::Rax), Val::Imm(1)));
                    v.push(Instr::Jne(Label::LName(make_label(cur))));
                    v.push(Instr::IMov(Val::Reg(Reg::Rax), Val::Imm(3)));
                    v.push(Instr::Jmp(Label::LName(make_label(cur + 1))));
                    v.push(Instr::Nothing(Label::LName(make_label(cur))));
                    v.push(Instr::IMov(Val::Reg(Reg::Rax), Val::Imm(7)));
                    v.push(Instr::Nothing(Label::LName(make_label(cur + 1))));
                    *l = cur + 2;
                    proof {
                        assert(instrs_vw(v@) =~= sub_vw + seq![
                            InstrV::Test(vrax(), imm(1)),
                            InstrV::Jne(lnum(cur as int)),
                            InstrV::IMov(vrax(), imm(3)),
                            InstrV::Jmp(lnum(cur as int + 1)),
                            InstrV::Nothing(lnum(cur as int)),
                            InstrV::IMov(vrax(), imm(7)),
                            InstrV::Nothing(lnum(cur as int + 1)),
                        ]);
                    }
                },
            }
            Ok(v)
        },
        Expr::BinOp(op, e1, e2) => {
            let mut v = compile_to_instrs(e2, si, env, v_args, func_table, l, bl, dep)?;
            let ghost vw2 = instrs_vw(v@);
            match op {
                Op2::Eq => {},
                _ => {
                    v.push(Instr::Test(Val::Reg(Reg::Rax), Val::Imm(1)));
                    v.push(Instr::Jne(Label::TypeError));
                },
            }
            v.push(Instr::IMov(Val::RegOffset(si * 8), Val::Reg(Reg::Rax)));
            let mut v1 = compile_to_instrs(e1, si + 1, env, v_args, func_table, l, bl, dep)?;
            let ghost vw1 = instrs_vw(v1@);
            v.append(&mut v1);
            match op {
                Op2::Eq => {
                    v.push(Instr::IMov(Val::Reg(Reg::Rbx), Val::Imm(0)));
                    v.push(Instr::Xor(Val::Reg(Reg::Rbx), Val::Reg(Reg::Rax)));
                    v.push(Instr::Xor(Val::Reg(Reg::Rbx), Val::RegOffset(si * 8)));
                    v.push(Instr::Test(Val::Reg(Reg::Rbx), Val::Imm(1)));
                    v.push(Instr::Jne(Label::TypeError));
                },
                _ => {
                    v.push(Instr::Test(Val::Reg(Reg::Rax), Val::Imm(1)));
                    v.push(Instr::Jne(Label::TypeError));
                },
            }
            let ghost prefix_vw = instrs_vw(v@);
            let ghost lc = *l as int;
            match op {
                Op2::Plus => {
                    v.push(Instr::IAdd(Val::Reg(Reg::Rax), Val::RegOffset(si * 8)));
                    v.push(Instr::Jo(Label::Overflow));
                },
                Op2::Minus => {
                    v.push(Instr::ISub(Val::Reg(Reg::Rax), Val::RegOffset(si * 8)));
                    v.push(Instr::Jo(Label::Overflow));
                },
                Op2::Times => {
                    v.push(Instr::Sar(Val::Reg(Reg::Rax), Val::Imm(1)));
                    v.push(Instr::IMul(Val::Reg(Reg::Rax), Val::RegOffset(si * 8)));
                    v.push(Instr::Jo(Label::Overflow));
                },
                _ => {
                    let cur = *l;
                    let mut vc = cmp_code(*op, si, cur);
                    v.append(&mut vc);
                    *l = cur + 2;
                },
            }
            proof {
                let senv = offsets_of(*env);
                let svargs = indices_of(*v_args);
                let sft = indices_of(*func_table);
                let check2 = if (op matches Op2::Eq) {
                    Seq::<InstrV>::empty()
                } else {
                    num_check()
                };
                let check1 = if (op matches Op2::Eq) {
                    seq![
                        InstrV::IMov(vrbx(), imm(0)),
                        InstrV::Xor(vrbx(), vrax()),
                        InstrV::Xor(vrbx(), soff(8 * si)),
                        InstrV::Test(vrbx(), imm(1)),
                        InstrV::Jne(LabelV::TypeError),
                    ]
                } else {
                    num_check()
                };
                let store = seq![InstrV::IMov(soff(8 * si), vrax())];
                assert(prefix_vw =~= vw2 + check2 + store + vw1 + check1);
                match op {
                    Op2::Plus => {
                        assert(instrs_vw(v@) =~= prefix_vw + seq![
                            InstrV::IAdd(vrax(), soff(8 * si)),
                            InstrV::Jo(LabelV::Overflow),
                        ]);
                    },
                    Op2::Minus => {
                        assert(instrs_vw(v@) =~= prefix_vw + seq![
                            InstrV::ISub(vrax(), soff(8 * si)),
                            InstrV::Jo(LabelV::Overflow),
                        ]);
                    },
                    Op2::Times => {
                        assert(instrs_vw(v@) =~= prefix_vw + seq![
                            InstrV::Sar(vrax(), imm(1)),
                            InstrV::IMul(vrax(), soff(8 * si)),
                            InstrV::Jo(LabelV::Overflow),
                        ]);
                    },
                    _ => {
                        assert(instrs_vw(v@) =~= prefix_vw + cmp_instrs(*op, si as int, lc));
                    },
                }
            }
            Ok(v)
        },
        Expr::Let(binds, body) => {
            proof {
                crate::depth::lemma_binds_sz_ge_len(binds@, 0);
            }
            let t = compile_binds(binds, 0, si, env, env, v_args, func_table, l, bl, dep)?;
            let mut v = t.0;
            let envf = t.1;
            let nsif = t.2;
            let ghost vwb = instrs_vw(v@);
            let mut vb = compile_to_instrs(body, nsif, &envf, v_args, func_table, l, bl, dep)?;
            let ghost vwbody = instrs_vw(vb@);
            v.append(&mut vb);
            proof {
                assert(instrs_vw(v@) =~= vwb + vwbody);
            }
            Ok(v)
        },
        Expr::SetVar(x, sub) => {
            if crate::ast::reserved_name(x.as_str()) {
                return Err(CompileError::Keyword);
            }
            match crate::envmap::env_get(env, x) {
                None => Err(CompileError::UnboundIdentifier),
                Some(off) => {
                    let mut v = compile_to_instrs(sub, si, env, v_args, func_table, l, bl, dep)?;
                    let ghost sub_vw = instrs_vw(v@);
                    v.push(Instr::IMov(Val::RegOffset(off), Val::Reg(Reg::Rax)));
                    proof {
                        assert(instrs_vw(v@) =~= sub_vw + seq![
                            InstrV::IMov(soff(offsets_of(*env)[x@] as int), vrax()),
                        ]);
                    }
                    Ok(v)
                },
            }
        },
        Expr::If(e1, e2, e3) => {
            let mut v = compile_to_instrs(e1, si, env, v_args, func_table, l, bl, dep)?;
            let ghost vw1 = instrs_vw(v@);
            let mut v2 = compile_to_instrs(e2, si, env, v_args, func_table, l, bl, dep)?;
            let ghost vw2 = instrs_vw(v2@);
            let mut v3 = compile_to_instrs(e3, si, env, v_args, func_table, l, bl, dep)?;
            let ghost vw3 = instrs_vw(v3@);
            let cur = *l;
            v.push(Instr::Cmp(Val::Reg(Reg::Rax), Val::Imm(3)));
            v.push(Instr::Je(Label::LName(make_label(cur))));
            v.append(&mut v2);
            v.push(Instr::Jmp(Label::LName(make_label(cur + 1))));
            v.push(Instr::Nothing(Label::LName(make_label(cur))));
            v.append(&mut v3);
            v.push(Instr::Nothing(Label::LName(make_label(cur + 1))));
            *l = cur + 2;
            proof {
                assert(instrs_vw(v@) =~= vw1 + seq![
                    InstrV::Cmp(vrax(), imm(3)),
                    InstrV::Je(lnum(cur as int)),
                ] + vw2 + seq![
                    InstrV::Jmp(lnum(cur as int + 1)),
                    InstrV::Nothing(lnum(cur as int)),
                ] + vw3 + seq![InstrV::Nothing(lnum(cur as int + 1))]);
            }
            Ok(v)
        },
        Expr::Block(es) => compile_seq(es, 0, si, env, v_args, func_table, l, bl, dep),
        Expr::Loop(body) => {
            let curr = *l;
            *l = curr + 2;
            let mut vb = compile_to_instrs(body, si, env, v_args, func_table, l, curr + 1, dep)?;
            let ghost vwb = instrs_vw(vb@);
            let mut v: Vec<Instr> = Vec::new();
            v.push(Instr::Nothing(Label::LName(make_label(curr))));
            v.append(&mut vb);
            v.push(Instr::Jmp(Label::LName(make_label(curr))));
            v.push(Instr::Nothing(Label::LName(make_label(curr + 1))));
            proof {
                assert(instrs_vw(v@) =~= seq![InstrV::Nothing(lnum(curr as int))] + vwb + seq![
                    InstrV::Jmp(lnum(curr as int)),
                    InstrV::Nothing(lnum(curr as int + 1)),
                ]);
            }
            Ok(v)
        },
        Expr::Break(sub) => {
            if bl == -1 {
                return Err(CompileError::BreakOutsideLoop);
            }
            let mut v = compile_to_instrs(sub, si, env, v_args, func_table, l, bl, dep)?;
            let ghost sub_vw = instrs_vw(v@);
            v.push(Instr::Jmp(Label::LName(make_label(bl))));
            proof {
                assert(instrs_vw(v@) =~= sub_vw + seq![InstrV::Jmp(lnum(bl as int))]);
            }
            Ok(v)
        },
        Expr::FuncCall(f, args) => {
            proof {
                crate::depth::lemma_exprs_sz_ge_len(args@, 0);
            }
            if crate::ast::str_eq(f.as_str(), "print") {
                if args.len() != 1 {
                    return Err(CompileError::WrongArity);
                }
                let mut v = compile_to_instrs(&args[0], si, env, v_args, func_table, l, bl, dep)?;
                let ghost sub_vw = instrs_vw(v@);
                v.push(Instr::Push(Val::Reg(Reg::Rdi)));
                v.push(Instr::IMov(Val::Reg(Reg::Rdi), Val::Reg(Reg::Rax)));
                v.push(Instr::Push(Val::Reg(Reg::Rax)));
                v.push(Instr::Call(Label::LName(String::from_str("snek_print"))));
                v.push(Instr::Pop(Val::Reg(Reg::Rax)));
                v.push(Instr::Pop(Val::Reg(Reg::Rdi)));
                proof {
                    assert(instrs_vw(v@) =~= sub_vw + seq![
                        InstrV::Push(vrdi()),
                        InstrV::IMov(vrdi(), vrax()),
                        InstrV::Push(vrax()),
                        InstrV::Call(LabelV::LName("snek_print"@)),
                        InstrV::Pop(vrax()),
                        InstrV::Pop(vrdi()),
                    ]);
                }
                Ok(v)
            } else {
                match crate::envmap::tbl_get(func_table, f) {
                    None => Err(CompileError::UnknownFunction),
                    Some(count) => {
                        if count != args.len() {
                            return Err(CompileError::WrongArity);
                        }
                        let mut v: Vec<Instr> = Vec::new();
                        v.push(Instr::IMov(Val::RegOnset(8), Val::Reg(Reg::Rdi)));
                        let mut va = compile_args(
                            args,
                            args.len(),
                            si,
                            env,
                            v_args,
                            func_table,
                            l,
                            bl,
                            dep,
                        )?;
                        let ghost vwa = instrs_vw(va@);
                        v.append(&mut va);
                        let adj: i64 = (args.len() as i64) * 8 + 8;
                        v.push(Instr::ISub(Val::Reg(Reg::Rsp), Val::Imm(adj)));
                        v.push(Instr::Call(Label::LName(f.clone())));
                        v.push(Instr::IAdd(Val::Reg(Reg::Rsp), Val::Imm(adj)));
                        v.push(Instr::IMov(Val::Reg(Reg::Rdi), Val::RegOnset(8)));
                        proof {
                            assert(instrs_vw(v@) =~= seq![InstrV::IMov(sonset(8), vrdi())] + vwa
                                + seq![
                                InstrV::ISub(vrsp(), imm(8 * args@.len() as int + 8)),
                                InstrV::Call(LabelV::LName(f@)),
                                InstrV::IAdd(vrsp(), imm(8 * args@.len() as int + 8)),
                                InstrV::IMov(vrdi(), sonset(8)),
                            ]);
                        }
                        Ok(v)
                    },
                }
            }
        },
    }
}

/// What one expression compiles to as text: its instructions, printed.
pub open spec fn compile_text_spec(
    e: Expr,
    vargs: Map<Seq<char>, usize>,
    ftable: Map<Seq<char>, usize>,
    l: int,
    dep: int,
) -> Result<(Seq<char>, int), CompileError> {
    match compile_spec(e, 0, Map::<Seq<char>, i64>::empty(), vargs, ftable, l, -1, dep) {
        Ok((ins, l2)) => Ok((instrs_str(ins, 0), l2)),
        Err(c) => Err(c),
    }
}

/// The parameter map of a definition: each parameter from position 1 on is
/// bound to its argument position, refusing reserved words and repeated
/// names.
pub open spec fn build_vargs_spec(
    names: Seq<String>,
    i: int,
    acc: Map<Seq<char>, usize>,
) -> Result<Map<Seq<char>, usize>, CompileError>
    decreases names.len() - i,
{
    if 1 <= i < names.len() {
        if is_reserved(names[i]@) {
            Err(CompileError::ReservedName)
        } else if acc.contains_key(names[i]@) {
            Err(CompileError::DuplicateParameter)
        } else {
            build_vargs_spec(names, i + 1, acc.insert(names[i]@, (i - 1) as usize))
        }
    } else {
        Ok(acc)
    }
}

/// What one definition emits: its label, a prologue claiming
/// `(depth + 2) * 8` bytes, the body, and an epilogue releasing the same
/// bytes before `ret`.  A definition beyond the machine bounds is refused.
pub open spec fn compile_defn_spec(
    names: Seq<String>,
    body: Expr,
    ftable: Map<Seq<char>, usize>,
    l: int,
) -> Result<(Seq<char>, int), CompileError> {
    if names.len() == 0 {
        Err(CompileError::Syntax)
    } else if expr_sz(body) > MAX_EXPR_SIZE {
        Err(CompileError::TooLarge)
    } else if names.len() - 1 > MAX_EXPR_SIZE {
        Err(CompileError::TooLarge)
    } else if l < 0 || l + 2 * expr_sz(body) > i64::MAX {
        Err(CompileError::TooLarge)
    } else {
        match build_vargs_spec(names, 1, Map::<Seq<char>, usize>::empty()) {
            Err(c) => Err(c),
            Ok(vargs) => {
                let dep = depth_spec(body) + 2;
                match compile_text_spec(body, vargs, ftable, l, dep as int) {
                    Err(c) => Err(c),
                    Ok((txt, l2)) => Ok(
                        (
                            "\n"@ + names[0]@ + ":"@ + "\n  sub rsp, "@ + str_of_nat(8 * dep)
                                + txt + "\n  add rsp, "@ + str_of_nat(8 * dep) + "\n  ret"@,
                            l2,
                        ),
                    ),
                }
            },
        }
    }
}

/// What the terminal expression emits under the entry symbol, with the
/// same prologue and epilogue shape as a definition.
pub open spec fn compile_entry_spec(e: Expr, ftable: Map<Seq<char>, usize>, l: int) -> Result<
    (Seq<char>, int),
    CompileError,
> {
    if expr_sz(e) > MAX_EXPR_SIZE {
        Err(CompileError::TooLarge)
    } else if l < 0 || l + 2 * expr_sz(e) > i64::MAX {
        Err(CompileError::TooLarge)
    } else {
        let dep = depth_spec(e) + 2;
        match compile_text_spec(e, Map::<Seq<char>, usize>::empty(), ftable, l, dep as int) {
            Err(c) => Err(c),
            Ok((txt, l2)) => Ok(
                (
                    "\nour_code_starts_here:"@ + "\nsub rsp, "@ + str_of_nat(8 * dep) + txt
                        + "\nadd rsp, "@ + str_of_nat(8 * dep) + "\n  ret"@,
                    l2,
                ),
            ),
        }
    }
}

/// What the definitions before the last statement emit, in order.
pub open spec fn compile_defns_spec(
    stmts: Seq<Statement>,
    i: int,
    ftable: Map<Seq<char>, usize>,
    l: int,
) -> Result<(Seq<char>, int), CompileError>
    decreases stmts.len() - i,
{
    if 0 <= i < stmts.len() - 1 {
        match stmts[i] {
            Statement::Definition(names, body) => {
                match compile_defn_spec(names@, *body, ftable, l) {
                    Err(c) => Err(c),
                    Ok((txt, l2)) => match compile_defns_spec(stmts, i + 1, ftable, l2) {
                        Err(c) => Err(c),
                        Ok((rest, lf)) => Ok((txt + rest, lf)),
                    },
                }
            },
            Statement::Expression(_) => Err(CompileError::Syntax),
        }
    } else {
        Ok((Seq::<char>::empty(), l))
    }
}

/// The two shared trap sites appended once to every program: each loads
/// its error code and calls the runtime's error function.
pub open spec fn trap_text() -> Seq<char> {
    "\nTYPEERROR:\n  mov rdi, 1\n  push rsp\n  call snek_error\nOVERFLOW:\n  mov rdi, 2\n  push rsp\n  call snek_error\n"@
}

/// What a whole program emits: every definition, the terminal expression
/// under the entry symbol, and the trap sites, with the label counter
/// threaded from zero.  A last statement that is not an expression, or a
/// definition after the last position, is refused.
pub open spec fn compile_program_spec(stmts: Seq<Statement>, ftable: Map<Seq<char>, usize>) -> Result<
    Seq<char>,
    CompileError,
> {
    if stmts.len() == 0 {
        Ok(trap_text())
    } else {
        match compile_defns_spec(stmts, 0, ftable, 0) {
            Err(c) => Err(c),
            Ok((dtxt, l1)) => match stmts[stmts.len() - 1] {
                Statement::Expression(e) => match compile_entry_spec(*e, ftable, l1) {
                    Err(c) => Err(c),
                    Ok((etxt, _)) => Ok(dtxt + etxt + trap_text()),
                },
                Statement::Definition(_, _) => Err(CompileError::Syntax),
            },
        }
    }
}

/// Lower one expression to its printed instructions, in a fresh scope.
pub fn compile(
    e: &Expr,
    v_args: &IndexMap,
    func_table: &IndexMap,
    l: &mut i64,
    dep: usize,
) -> (r: Result<String, CompileError>)
    requires
        expr_sz(*e) <= MAX_EXPR_SIZE,
        vargs_ok(indices_of(*v_args)),
        0 <= dep <= MAX_EXPR_SIZE + 2,
        0 <= *old(l),
        *old(l) as int + 2 * expr_sz(*e) <= i64::MAX as int,
    ensures
        *old(l) <= *final(l),
        *final(l) as int <= *old(l) as int + 2 * expr_sz(*e),
        match r {
            Ok(s) => compile_text_spec(
                *e,
                indices_of(*v_args),
                indices_of(*func_table),
                *old(l) as int,
                dep as int,
            ) == Ok::<(Seq<char>, int), CompileError>((s@, *final(l) as int)),
            Err(c) => compile_text_spec(
                *e,
                indices_of(*v_args),
                indices_of(*func_table),
                *old(l) as int,
                dep as int,
            ) == Err::<(Seq<char>, int), CompileError>(c),
        },
{
    let env = crate::envmap::env_new();
    proof {
        assert(offsets_of(env) =~= Map::<Seq<char>, i64>::empty());
    }
    let ins = compile_to_instrs(e, 0, &env, v_args, func_table, l, -1, dep)?;
    Ok(crate::emit::instrs_to_string(&ins))
}

/// Emit one function definition: label, prologue, body, epilogue.
pub fn compile_defn(
    names: &Vec<String>,
    body: &Expr,
    func_table: &IndexMap,
    l: &mut i64,
) -> (r: Result<String, CompileError>)
    ensures
        *old(l) <= *final(l),
        match r {
            Ok(s) => compile_defn_spec(
                names@,
                *body,
                indices_of(*func_table),
                *old(l) as int,
            ) == Ok::<(Seq<char>, int), CompileError>((s@, *final(l) as int)),
            Err(c) => compile_defn_spec(names@, *body, indices_of(*func_table), *old(l) as int)
                == Err::<(Seq<char>, int), CompileError>(c),
        },
{
    if names.len() == 0 {
        return Err(CompileError::Syntax);
    }
    let sz = match crate::ast::expr_size(body) {
        Some(s) => s,
        None => {
            return Err(CompileError::TooLarge);
        },
    };
    if sz > MAX_EXPR_SIZE {
        return Err(CompileError::TooLarge);
    }
    if names.len() - 1 > MAX_EXPR_SIZE {
        return Err(CompileError::TooLarge);
    }
    if *l < 0 || *l > i64::MAX - 2 * (sz as i64) {
        return Err(CompileError::TooLarge);
    }
    let mut v_args = crate::envmap::tbl_new();
    proof {
        assert(indices_of(v_args) =~= Map::<Seq<char>, usize>::empty());
    }
    let mut i: usize = 1;
    while i < names.len()
        invariant
            1 <= i <= names@.len(),
            names@.len() - 1 <= MAX_EXPR_SIZE,
            expr_sz(*body) <= MAX_EXPR_SIZE,
            *l == *old(l),
            0 <= *l,
            *l as int + 2 * expr_sz(*body) <= i64::MAX as int,
            vargs_ok(indices_of(v_args)),
            build_vargs_spec(names@, 1, Map::<Seq<char>, usize>::empty()) == build_vargs_spec(
                names@,
                i as int,
                indices_of(v_args),
            ),
        decreases names@.len() - i,
    {
        if crate::ast::reserved_name(names[i].as_str()) {
            return Err(CompileError::ReservedName);
        }
        if crate::envmap::tbl_contains(&v_args, &names[i]) {
            return Err(CompileError::DuplicateParameter);
        }
        crate::envmap::tbl_insert(&mut v_args, &names[i], i - 1);
        i = i + 1;
    }
    proof {
        crate::depth::lemma_depth_le_sz(*body);
    }
    let dep = crate::depth::depth(body) + 2;
    let txt = compile(body, &v_args, func_table, l, dep)?;
    let dep8 = (dep as u64) * 8;
    let mut s = String::from_str("\n");
    s.append(names[0].as_str());
    s.append(":");
    s.append("\n  sub rsp, ");
    s.append(u64_to_string(dep8).as_str());
    s.append(txt.as_str());
    s.append("\n  add rsp, ");
    s.append(u64_to_string(dep8).as_str());
    s.append("\n  ret");
    proof {
        assert(s@ =~= "\n"@ + names@[0]@ + ":"@ + "\n  sub rsp, "@ + str_of_nat(
            (8 * (depth_spec(*body) + 2)) as nat,
        ) + txt@ + "\n  add rsp, "@ + str_of_nat((8 * (depth_spec(*body) + 2)) as nat)
            + "\n  ret"@);
    }
    Ok(s)
}

/// Emit the terminal expression under the entry symbol.
pub fn compile_entry(e: &Expr, func_table: &IndexMap, l: &mut i64) -> (r: Result<
    String,
    CompileError,
>)
    ensures
        *old(l) <= *final(l),
        match r {
            Ok(s) => compile_entry_spec(*e, indices_of(*func_table), *old(l) as int) == Ok::<
                (Seq<char>, int),
                CompileError,
            >((s@, *final(l) as int)),
            Err(c) => compile_entry_spec(*e, indices_of(*func_table), *old(l) as int) == Err::<
                (Seq<char>, int),
                CompileError,
            >(c),
        },
{
    let sz = match crate::ast::expr_size(e) {
        Some(s) => s,
        None => {
            return Err(CompileError::TooLarge);
        },
    };
    if sz > MAX_EXPR_SIZE {
        return Err(CompileError::TooLarge);
    }
    if *l < 0 || *l > i64::MAX - 2 * (sz as i64) {
        return Err(CompileError::TooLarge);
    }
    let v_args = crate::envmap::tbl_new();
    proof {
        assert(indices_of(v_args) =~= Map::<Seq<char>, usize>::empty());
        crate::depth::lemma_depth_le_sz(*e);
    }
    let dep = crate::depth::depth(e) + 2;
    let txt = compile(e, &v_args, func_table, l, dep)?;
    let dep8 = (dep as u64) * 8;
    let mut s = String::from_str("\nour_code_starts_here:");
    s.append("\nsub rsp, ");
    s.append(u64_to_string(dep8).as_str());
    s.append(txt.as_str());
    s.append("\nadd rsp, ");
    s.append(u64_to_string(dep8).as_str());
    s.append("\n  ret");
    proof {
        assert(s@ =~= "\nour_code_starts_here:"@ + "\nsub rsp, "@ + str_of_nat(
            (8 * (depth_spec(*e) + 2)) as nat,
        ) + txt@ + "\nadd rsp, "@ + str_of_nat((8 * (depth_spec(*e) + 2)) as nat) + "\n  ret"@);
    }
    Ok(s)
}

/// Emit the definitions before the last statement, in order.
fn compile_defns(
    stmts: &Vec<Statement>,
    i: usize,
    func_table: &IndexMap,
    l: &mut i64,
) -> (r: Result<String, CompileError>)
    requires
        i <= stmts@.len(),
    ensures
        *old(l) <= *final(l),
        match r {
            Ok(s) => compile_defns_spec(stmts@, i as int, indices_of(*func_table), *old(l) as int)
                == Ok::<(Seq<char>, int), CompileError>((s@, *final(l) as int)),
            Err(c) => compile_defns_spec(
                stmts@,
                i as int,
                indices_of(*func_table),
                *old(l) as int,
            ) == Err::<(Seq<char>, int), CompileError>(c),
        },
    decreases stmts@.len() - i,
{
    if stmts.len() - i >= 2 {
        match &stmts[i] {
            Statement::Definition(names, body) => {
                let mut s = compile_defn(names, body, func_table, l)?;
                let rest = compile_defns(stmts, i + 1, func_table, l)?;
                s.append(rest.as_str());
                Ok(s)
            },
            Statement::Expression(_) => Err(CompileError::Syntax),
        }
    } else {
        Ok(String::new())
    }
}

/// The printed trap sites.
fn trap_code() -> (s: String)
    ensures
        s@ == trap_text(),
{
    String::from_str(
        "\nTYPEERROR:\n  mov rdi, 1\n  push rsp\n  call snek_error\nOVERFLOW:\n  mov rdi, 2\n  push rsp\n  call snek_error\n",
    )
}

/// Emit a whole parsed program: definitions, entry, trap sites.  The
/// caller wraps this in the assembly file's fixed heading.
pub fn compile_program(stmts: &Vec<Statement>, func_table: &IndexMap) -> (r: Result<
    String,
    CompileError,
>)
    ensures
        match r {
            Ok(s) => compile_program_spec(stmts@, indices_of(*func_table)) == Ok::<
                Seq<char>,
                CompileError,
            >(s@),
            Err(c) => compile_program_spec(stmts@, indices_of(*func_table)) == Err::<
                Seq<char>,
                CompileError,
            >(c),
        },
{
    if stmts.len() == 0 {
        return Ok(trap_code());
    }
    let mut l: i64 = 0;
    let mut s = compile_defns(stmts, 0, func_table, &mut l)?;
    match &stmts[stmts.len() - 1] {
        Statement::Expression(e) => {
            let etxt = compile_entry(e, func_table, &mut l)?;
            s.append(etxt.as_str());
            s.append(trap_code().as_str());
            Ok(s)
        },
        Statement::Definition(_, _) => Err(CompileError::Syntax),
    }
}

/// Lower the bindings from position `i` on: initialiser, store, then the
/// name enters scope.  Gives back the instructions, the final scope, and
/// the next free slot.
#[verifier::rlimit(100)]
fn compile_binds(
    bs: &Vec<(String, Expr)>,
    i: usize,
    nsi: i64,
    nenv: &OffsetMap,
    env0: &OffsetMap,
    v_args: &IndexMap,
    func_table: &IndexMap,
    l: &mut i64,
    bl: i64,
    dep: usize,
) -> (r: Result<(Vec<Instr>, OffsetMap, i64), CompileError>)
    requires
        i <= bs@.len(),
        compile_pre(
            binds_sz(bs@, i as int),
            nsi as int,
            offsets_of(*nenv),
            indices_of(*v_args),
            dep as int,
            *old(l) as int,
            bl as int,
        ),
    ensures
        *old(l) <= *final(l),
        *final(l) as int <= *old(l) as int + 2 * binds_sz(bs@, i as int),
        match r {
            Ok(t) => compile_binds_spec(
                bs@,
                i as int,
                nsi as int,
                offsets_of(*nenv),
                offsets_of(*env0),
                indices_of(*v_args),
                indices_of(*func_table),
                *old(l) as int,
                bl as int,
                dep as int,
            ) == Ok::<(Seq<InstrV>, Map<Seq<char>, i64>, int, int), CompileError>(
                (instrs_vw(t.0@), offsets_of(t.1), t.2 as int, *final(l) as int),
            ) && env_ok(offsets_of(t.1), t.2 as int) && t.2 as int == nsi + (bs@.len() - i),
            Err(c) => compile_binds_spec(
                bs@,
                i as int,
                nsi as int,
                offsets_of(*nenv),
                offsets_of(*env0),
                indices_of(*v_args),
                indices_of(*func_table),
                *old(l) as int,
                bl as int,
                dep as int,
            ) == Err::<(Seq<InstrV>, Map<Seq<char>, i64>, int, int), CompileError>(c),
        },
    decreases bs@, bs@.len() - i,
{
    if i < bs.len() {
        let x: &String = &bs[i].0;
        if crate::ast::reserved_name(x.as_str()) {
            return Err(CompileError::Keyword);
        }
        if crate::envmap::env_contains(nenv, x) && !crate::envmap::env_contains(env0, x) {
            return Err(CompileError::DuplicateBinding);
        }
        let mut v = compile_to_instrs(&bs[i].1, nsi, nenv, v_args, func_table, l, bl, dep)?;
        let ghost sub_vw = instrs_vw(v@);
        let nenv2 = crate::envmap::env_update(nenv, x, nsi * 8);
        v.push(Instr::IMov(Val::RegOffset(nsi * 8), Val::Reg(Reg::Rax)));
        proof {
            assert(env_ok(offsets_of(nenv2), nsi as int + 1));
        }
        let t = compile_binds(bs, i + 1, nsi + 1, &nenv2, env0, v_args, func_table, l, bl, dep)?;
        let mut vr = t.0;
        let ghost rest_vw = instrs_vw(vr@);
        v.append(&mut vr);
        proof {
            assert(instrs_vw(v@) =~= sub_vw + seq![InstrV::IMov(soff(8 * nsi), vrax())] + rest_vw);
        }
        Ok((v, t.1, t.2))
    } else {
        let envc = crate::envmap::env_clone(nenv);
        proof {
            assert(instrs_vw(Seq::<Instr>::empty()) =~= Seq::<InstrV>::empty());
        }
        Ok((Vec::new(), envc, nsi))
    }
}

/// Lower the expressions from position `i` on, in order.
fn compile_seq(
    es: &Vec<Expr>,
    i: usize,
    si: i64,
    env: &OffsetMap,
    v_args: &IndexMap,
    func_table: &IndexMap,
    l: &mut i64,
    bl: i64,
    dep: usize,
) -> (r: Result<Vec<Instr>, CompileError>)
    requires
        i <= es@.len(),
        compile_pre(
            exprs_sz(es@, i as int),
            si as int,
            offsets_of(*env),
            indices_of(*v_args),
            dep as int,
            *old(l) as int,
            bl as int,
        ),
    ensures
        *old(l) <= *final(l),
        *final(l) as int <= *old(l) as int + 2 * exprs_sz(es@, i as int),
        match r {
            Ok(v) => compile_seq_spec(
                es@,
                i as int,
                si as int,
                offsets_of(*env),
                indices_of(*v_args),
                indices_of(*func_table),
                *old(l) as int,
                bl as int,
                dep as int,
            ) == Ok::<(Seq<InstrV>, int), CompileError>((instrs_vw(v@), *final(l) as int)),
            Err(c) => compile_seq_spec(
                es@,
                i as int,
                si as int,
                offsets_of(*env),
                indices_of(*v_args),
                indices_of(*func_table),
                *old(l) as int,
                bl as int,
                dep as int,
            ) == Err::<(Seq<InstrV>, int), CompileError>(c),
        },
    decreases es@, es@.len() - i,
{
    if i < es.len() {
        let mut v = compile_to_instrs(&es[i], si, env, v_args, func_table, l, bl, dep)?;
        let ghost head_vw = instrs_vw(v@);
        let mut vr = compile_seq(es, i + 1, si, env, v_args, func_table, l, bl, dep)?;
        let ghost rest_vw = instrs_vw(vr@);
        v.append(&mut vr);
        proof {
            assert(instrs_vw(v@) =~= head_vw + rest_vw);
        }
        Ok(v)
    } else {
        proof {
            assert(instrs_vw(Seq::<Instr>::empty()) =~= Seq::<InstrV>::empty());
        }
        Ok(Vec::new())
    }
}

/// Lower the last `j` arguments of a call, last first, staging each below
/// the stack pointer.
fn compile_args(
    args: &Vec<Expr>,
    j: usize,
    si: i64,
    env: &OffsetMap,
    v_args: &IndexMap,
    func_table: &IndexMap,
    l: &mut i64,
    bl: i64,
    dep: usize,
) -> (r: Result<Vec<Instr>, CompileError>)
    requires
        j <= args@.len(),
        0 <= si,
        si as int + exprs_sz(args@, 0) <= MAX_EXPR_SIZE as int,
        env_ok(offsets_of(*env), si as int),
        vargs_ok(indices_of(*v_args)),
        0 <= dep <= MAX_EXPR_SIZE as int + 2,
        0 <= *old(l),
        *old(l) as int + 2 * (exprs_sz(args@, 0) - exprs_sz(args@, j as int)) <= i64::MAX as int,
        exprs_sz(args@, j as int) <= exprs_sz(args@, 0),
        bl >= -1,
    ensures
        *old(l) <= *final(l),
        *final(l) as int <= *old(l) as int + 2 * (exprs_sz(args@, 0) - exprs_sz(args@, j as int)),
        match r {
            Ok(v) => compile_args_spec(
                args@,
                j as int,
                si as int,
                offsets_of(*env),
                indices_of(*v_args),
                indices_of(*func_table),
                *old(l) as int,
                bl as int,
                dep as int,
            ) == Ok::<(Seq<InstrV>, int), CompileError>((instrs_vw(v@), *final(l) as int)),
            Err(c) => compile_args_spec(
                args@,
                j as int,
                si as int,
                offsets_of(*env),
                indices_of(*v_args),
                indices_of(*func_table),
                *old(l) as int,
                bl as int,
                dep as int,
            ) == Err::<(Seq<InstrV>, int), CompileError>(c),
        },
    decreases args@, j,
{
    if j > 0 {
        proof {
            crate::depth::lemma_exprs_sz_parts(args@, 0, j as int - 1);
            lemma_exprs_sz_mono(args@, 0, j as int - 1);
            lemma_exprs_sz_mono(args@, j as int - 1, j as int);
            crate::depth::lemma_exprs_sz_ge_len(args@, 0);
        }
        let mut v = compile_to_instrs(&args[j - 1], si, env, v_args, func_table, l, bl, dep)?;
        let ghost head_vw = instrs_vw(v@);
        let idx = args.len() - j;
        v.push(
            Instr::IMov(Val::RegOnset((idx as i64) * 8 + 16), Val::Reg(Reg::Rax)),
        );
        let mut vr = compile_args(args, j - 1, si, env, v_args, func_table, l, bl, dep)?;
        let ghost rest_vw = instrs_vw(vr@);
        v.append(&mut vr);
        proof {
            assert(instrs_vw(v@) =~= head_vw + seq![
                InstrV::IMov(sonset(8 * (args@.len() - j) + 16), vrax()),
            ] + rest_vw);
        }
        Ok(v)
    } else {
        proof {
            assert(instrs_vw(Seq::<Instr>::empty()) =~= Seq::<InstrV>::empty());
        }
        Ok(Vec::new())
    }
}

} // verus!
