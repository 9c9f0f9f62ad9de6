//! Laws of the emitted code, proved over the compiler's ghost mirror: every
//! arithmetic instruction on the result register sits directly behind its
//! tag check and directly before its overflow trap, and every stack-pointer
//! adjustment for a call is undone right after the call returns.

use vstd::prelude::*;
use crate::ast::{binds_sz, expr_sz, exprs_sz, Expr};
use crate::depth::MAX_EXPR_SIZE;
use crate::compiler::{
    compile_args_spec, compile_binds_spec, compile_seq_spec, compile_spec, env_ok, imm, num_check,
    vrax, vrsp,
};
use crate::depth::{binds_depth_spec, depth_spec, exprs_depth_spec};
use crate::instr::{InstrV, LabelV, ValV};

verus! {

/// The arithmetic instructions that compute on the result register are
/// exactly guarded: a tag check two (for multiplication, three) places
/// before, the untagging shift right before a multiplication, and the
/// overflow trap right after.
pub open spec fn guarded_at(s: Seq<InstrV>, j: int) -> bool {
    match s[j] {
        InstrV::IAdd(d, _) => d == vrax() ==> j >= 2 && s[j - 2] == InstrV::Test(vrax(), imm(1))
            && s[j - 1] == InstrV::Jne(LabelV::TypeError) && j + 1 < s.len() && s[j + 1]
            == InstrV::Jo(LabelV::Overflow),
        InstrV::ISub(d, _) => d == vrax() ==> j >= 2 && s[j - 2] == InstrV::Test(vrax(), imm(1))
            && s[j - 1] == InstrV::Jne(LabelV::TypeError) && j + 1 < s.len() && s[j + 1]
            == InstrV::Jo(LabelV::Overflow),
        InstrV::IMul(d, _) => d == vrax() ==> j >= 3 && s[j - 3] == InstrV::Test(vrax(), imm(1))
            && s[j - 2] == InstrV::Jne(LabelV::TypeError) && s[j - 1] == InstrV::Sar(
            vrax(),
            imm(1),
        ) && j + 1 < s.len() && s[j + 1] == InstrV::Jo(LabelV::Overflow),
        _ => true,
    }
}

/// A subtraction from the stack pointer is followed by exactly one call and
/// the addition of the same amount.
pub open spec fn balanced_at(s: Seq<InstrV>, j: int) -> bool {
    match s[j] {
        InstrV::ISub(d, k) => d == vrsp() ==> j + 2 < s.len() && (s[j + 1] matches InstrV::Call(_))
            && s[j + 2] == InstrV::IAdd(vrsp(), k),
        _ => true,
    }
}

/// Both shapes hold at every position.
pub open spec fn code_ok(s: Seq<InstrV>) -> bool {
    forall|j: int| 0 <= j < s.len() ==> #[trigger] guarded_at(s, j) && balanced_at(s, j)
}

/// Both shapes survive concatenation, since each speaks only of positions
/// inside the piece its instruction came from.
proof fn lemma_code_ok_concat(s1: Seq<InstrV>, s2: Seq<InstrV>)
    requires
        code_ok(s1),
        code_ok(s2),
    ensures
        code_ok(s1 + s2),
{
    let s = s1 + s2;
    assert forall|j: int| 0 <= j < s.len() implies #[trigger] guarded_at(s, j) && balanced_at(
        s,
        j,
    ) by {
        if j < s1.len() {
            assert(guarded_at(s1, j));
            assert(balanced_at(s1, j));
            assert(s[j] == s1[j]);
        } else {
            let j2 = j - s1.len();
            assert(guarded_at(s2, j2));
            assert(balanced_at(s2, j2));
            assert(s[j] == s2[j2]);
        }
    }
}

/// A piece without arithmetic on the result register and without stack
/// adjustments satisfies both shapes; stated for the checks and glue the
/// compiler emits around sub-results.
proof fn lemma_code_ok_inert(s: Seq<InstrV>)
    requires
        forall|j: int|
            0 <= j < s.len() ==> match #[trigger] s[j] {
                InstrV::IAdd(d, _) => d != vrax() && d != vrsp(),
                InstrV::ISub(d, _) => d != vrax() && d != vrsp(),
                InstrV::IMul(d, _) => d != vrax(),
                _ => true,
            },
    ensures
        code_ok(s),
{
    assert forall|j: int| 0 <= j < s.len() implies #[trigger] guarded_at(s, j) && balanced_at(
        s,
        j,
    ) by {}
}

/// Every instruction stream the compiler emits for an expression has its
/// arithmetic guarded and its stack adjustments balanced.
#[verifier::rlimit(100)]
#[verifier::spinoff_prover]
pub proof fn lemma_compile_code_ok(
    e: Expr,
    si: int,
    env: Map<Seq<char>, i64>,
    vargs: Map<Seq<char>, usize>,
    ftable: Map<Seq<char>, usize>,
    l: int,
    bl: int,
    dep: int,
)
    ensures
        compile_spec(e, si, env, vargs, ftable, l, bl, dep) matches Ok((s, _)) ==> code_ok(s),
    decreases e, 0int,
{
    let r = compile_spec(e, si, env, vargs, ftable, l, bl, dep);
    if r is Ok {
        let (s, lf) = r->Ok_0;
        match e {
            Expr::Number(_) => {
                assert(code_ok(s));
            },
            Expr::True => {
                assert(code_ok(s));
            },
            Expr::False => {
                assert(code_ok(s));
            },
            Expr::Input => {
                assert(code_ok(s));
            },
            Expr::Id(_) => {
                assert(code_ok(s));
            },
            Expr::UnOp(op, sub) => {
                lemma_compile_code_ok(*sub, si, env, vargs, ftable, l, bl, dep);
                let (ins, l1) = compile_spec(*sub, si, env, vargs, ftable, l, bl, dep)->Ok_0;
                let tail = s.subrange(ins.len() as int, s.len() as int);
                assert(tail =~= s.subrange(ins.len() as int, s.len() as int));
                assert(s =~= ins + tail);
                assert(code_ok(tail));
                lemma_code_ok_concat(ins, tail);
            },
            Expr::BinOp(op, e1, e2) => {
                lemma_compile_code_ok(*e2, si, env, vargs, ftable, l, bl, dep);
                let (ins2, l2) = compile_spec(*e2, si, env, vargs, ftable, l, bl, dep)->Ok_0;
                lemma_compile_code_ok(*e1, si + 1, env, vargs, ftable, l2, bl, dep);
                let (ins1, l1) = compile_spec(*e1, si + 1, env, vargs, ftable, l2, bl, dep)->Ok_0;
                let check2 = if (op matches crate::ast::Op2::Eq) {
                    Seq::<InstrV>::empty()
                } else {
                    num_check()
                };
                let store = seq![InstrV::IMov(crate::compiler::soff(8 * si), vrax())];
                let front = ins2 + check2 + store + ins1;
                let tail = s.subrange(front.len() as int, s.len() as int);
                assert(s =~= front + tail);
                assert(code_ok(check2 + store)) by {
                    lemma_code_ok_inert(check2 + store);
                }
                lemma_code_ok_concat(check2, store);
                lemma_code_ok_concat(ins2, check2 + store);
                assert(ins2 + (check2 + store) =~= ins2 + check2 + store);
                lemma_code_ok_concat(ins2 + check2 + store, ins1);
                assert(code_ok(tail));
                lemma_code_ok_concat(front, tail);
            },
            Expr::Let(binds, body) => {
                lemma_binds_code_ok(binds@, 0, si, env, env, vargs, ftable, l, bl, dep);
                let (insb, envf, nsif, l2) = compile_binds_spec(
                    binds@,
                    0,
                    si,
                    env,
                    env,
                    vargs,
                    ftable,
                    l,
                    bl,
                    dep,
                )->Ok_0;
                lemma_compile_code_ok(*body, nsif, envf, vargs, ftable, l2, bl, dep);
                let (insbody, _) = compile_spec(*body, nsif, envf, vargs, ftable, l2, bl, dep)->Ok_0;
                lemma_code_ok_concat(insb, insbody);
            },
            Expr::SetVar(_, sub) => {
                lemma_compile_code_ok(*sub, si, env, vargs, ftable, l, bl, dep);
                let (ins, _) = compile_spec(*sub, si, env, vargs, ftable, l, bl, dep)->Ok_0;
                let tail = s.subrange(ins.len() as int, s.len() as int);
                assert(s =~= ins + tail);
                lemma_code_ok_concat(ins, tail);
            },
            Expr::If(e1, e2, e3) => {
                lemma_compile_code_ok(*e1, si, env, vargs, ftable, l, bl, dep);
                let (i1, l1) = compile_spec(*e1, si, env, vargs, ftable, l, bl, dep)->Ok_0;
                lemma_compile_code_ok(*e2, si, env, vargs, ftable, l1, bl, dep);
                let (i2, l2) = compile_spec(*e2, si, env, vargs, ftable, l1, bl, dep)->Ok_0;
                lemma_compile_code_ok(*e3, si, env, vargs, ftable, l2, bl, dep);
                let (i3, l3) = compile_spec(*e3, si, env, vargs, ftable, l2, bl, dep)->Ok_0;
                let g1 = seq![
                    InstrV::Cmp(vrax(), imm(3)),
                    InstrV::Je(crate::compiler::lnum(l3)),
                ];
                let g2 = seq![
                    InstrV::Jmp(crate::compiler::lnum(l3 + 1)),
                    InstrV::Nothing(crate::compiler::lnum(l3)),
                ];
                let g3 = seq![InstrV::Nothing(crate::compiler::lnum(l3 + 1))];
                lemma_code_ok_inert(g1);
                lemma_code_ok_inert(g2);
                lemma_code_ok_inert(g3);
                lemma_code_ok_concat(i1, g1);
                lemma_code_ok_concat(i1 + g1, i2);
                lemma_code_ok_concat(i1 + g1 + i2, g2);
                lemma_code_ok_concat(i1 + g1 + i2 + g2, i3);
                lemma_code_ok_concat(i1 + g1 + i2 + g2 + i3, g3);
                assert(s =~= i1 + g1 + i2 + g2 + i3 + g3);
            },
            Expr::Block(es) => {
                lemma_seq_code_ok(es@, 0, si, env, vargs, ftable, l, bl, dep);
            },
            Expr::Loop(body) => {
                lemma_compile_code_ok(*body, si, env, vargs, ftable, l + 2, l + 1, dep);
                let (ins, _) = compile_spec(*body, si, env, vargs, ftable, l + 2, l + 1, dep)->Ok_0;
                let g1 = seq![InstrV::Nothing(crate::compiler::lnum(l))];
                let g2 = seq![
                    InstrV::Jmp(crate::compiler::lnum(l)),
                    InstrV::Nothing(crate::compiler::lnum(l + 1)),
                ];
                lemma_code_ok_inert(g1);
                lemma_code_ok_inert(g2);
                lemma_code_ok_concat(g1, ins);
                lemma_code_ok_concat(g1 + ins, g2);
                assert(s =~= g1 + ins + g2);
            },
            Expr::Break(sub) => {
                if bl != -1 {
                    lemma_compile_code_ok(*sub, si, env, vargs, ftable, l, bl, dep);
                    let (ins, _) = compile_spec(*sub, si, env, vargs, ftable, l, bl, dep)->Ok_0;
                    let tail = s.subrange(ins.len() as int, s.len() as int);
                    assert(s =~= ins + tail);
                    lemma_code_ok_inert(tail);
                    lemma_code_ok_concat(ins, tail);
                }
            },
            Expr::FuncCall(f, args) => {
                if f@ == "print"@ {
                    lemma_compile_code_ok(args@[0], si, env, vargs, ftable, l, bl, dep);
                    let (ins, _) = compile_spec(args@[0], si, env, vargs, ftable, l, bl, dep)->Ok_0;
                    let tail = s.subrange(ins.len() as int, s.len() as int);
                    assert(s =~= ins + tail);
                    lemma_code_ok_inert(tail);
                    lemma_code_ok_concat(ins, tail);
                } else {
                    lemma_args_code_ok(args@, args@.len() as int, si, env, vargs, ftable, l, bl, dep);
                    let (insa, _) = compile_args_spec(
                        args@,
                        args@.len() as int,
                        si,
                        env,
                        vargs,
                        ftable,
                        l,
                        bl,
                        dep,
                    )->Ok_0;
                    let g1 = seq![InstrV::IMov(crate::compiler::sonset(8), crate::compiler::vrdi())];
                    let k = imm(8 * args@.len() as int + 8);
                    let g2 = seq![
                        InstrV::ISub(vrsp(), k),
                        InstrV::Call(LabelV::LName(f@)),
                        InstrV::IAdd(vrsp(), k),
                        InstrV::IMov(crate::compiler::vrdi(), crate::compiler::sonset(8)),
                    ];
                    lemma_code_ok_inert(g1);
                    assert(code_ok(g2)) by {
                        assert forall|j: int| 0 <= j < g2.len() implies #[trigger] guarded_at(
                            g2,
                            j,
                        ) && balanced_at(g2, j) by {}
                    }
                    lemma_code_ok_concat(g1, insa);
                    lemma_code_ok_concat(g1 + insa, g2);
                    assert(s =~= g1 + insa + g2);
                }
            },
        }
    }
}

/// The binding compiler emits only guarded, balanced code.
proof fn lemma_binds_code_ok(
    bs: Seq<(String, Expr)>,
    i: int,
    nsi: int,
    nenv: Map<Seq<char>, i64>,
    env0: Map<Seq<char>, i64>,
    vargs: Map<Seq<char>, usize>,
    ftable: Map<Seq<char>, usize>,
    l: int,
    bl: int,
    dep: int,
)
    ensures
        compile_binds_spec(bs, i, nsi, nenv, env0, vargs, ftable, l, bl, dep) matches Ok(
            (s, _, _, _),
        ) ==> code_ok(s),
    decreases bs, bs.len() - i,
{
    let r = compile_binds_spec(bs, i, nsi, nenv, env0, vargs, ftable, l, bl, dep);
    if r is Ok && 0 <= i < bs.len() {
        let x = bs[i].0;
        lemma_compile_code_ok(bs[i].1, nsi, nenv, vargs, ftable, l, bl, dep);
        let (ins, l2) = compile_spec(bs[i].1, nsi, nenv, vargs, ftable, l, bl, dep)->Ok_0;
        lemma_binds_code_ok(
            bs,
            i + 1,
            nsi + 1,
            nenv.insert(x@, (8 * nsi) as i64),
            env0,
            vargs,
            ftable,
            l2,
            bl,
            dep,
        );
        let (insr, _, _, _) = compile_binds_spec(
            bs,
            i + 1,
            nsi + 1,
            nenv.insert(x@, (8 * nsi) as i64),
            env0,
            vargs,
            ftable,
            l2,
            bl,
            dep,
        )->Ok_0;
        let g = seq![InstrV::IMov(crate::compiler::soff(8 * nsi), vrax())];
        lemma_code_ok_inert(g);
        lemma_code_ok_concat(ins, g);
        lemma_code_ok_concat(ins + g, insr);
        assert(r->Ok_0.0 =~= ins + g + insr);
    }
}

/// The block compiler emits only guarded, balanced code.
proof fn lemma_seq_code_ok(
    es: Seq<Expr>,
    i: int,
    si: int,
    env: Map<Seq<char>, i64>,
    vargs: Map<Seq<char>, usize>,
    ftable: Map<Seq<char>, usize>,
    l: int,
    bl: int,
    dep: int,
)
    ensures
        compile_seq_spec(es, i, si, env, vargs, ftable, l, bl, dep) matches Ok((s, _)) ==> code_ok(
            s,
        ),
    decreases es, es.len() - i,
{
    let r = compile_seq_spec(es, i, si, env, vargs, ftable, l, bl, dep);
    if r is Ok && 0 <= i < es.len() {
        lemma_compile_code_ok(es[i], si, env, vargs, ftable, l, bl, dep);
        let (ins, l2) = compile_spec(es[i], si, env, vargs, ftable, l, bl, dep)->Ok_0;
        lemma_seq_code_ok(es, i + 1, si, env, vargs, ftable, l2, bl, dep);
        let (insr, _) = compile_seq_spec(es, i + 1, si, env, vargs, ftable, l2, bl, dep)->Ok_0;
        lemma_code_ok_concat(ins, insr);
    }
}

/// The argument compiler emits only guarded, balanced code.
proof fn lemma_args_code_ok(
    args: Seq<Expr>,
    j: int,
    si: int,
    env: Map<Seq<char>, i64>,
    vargs: Map<Seq<char>, usize>,
    ftable: Map<Seq<char>, usize>,
    l: int,
    bl: int,
    dep: int,
)
    ensures
        compile_args_spec(args, j, si, env, vargs, ftable, l, bl, dep) matches Ok((s, _))
            ==> code_ok(s),
    decreases args, j,
{
    let r = compile_args_spec(args, j, si, env, vargs, ftable, l, bl, dep);
    if r is Ok && 0 < j <= args.len() {
        lemma_compile_code_ok(args[j - 1], si, env, vargs, ftable, l, bl, dep);
        let (ins, l2) = compile_spec(args[j - 1], si, env, vargs, ftable, l, bl, dep)->Ok_0;
        lemma_args_code_ok(args, j - 1, si, env, vargs, ftable, l2, bl, dep);
        let (insr, _) = compile_args_spec(args, j - 1, si, env, vargs, ftable, l2, bl, dep)->Ok_0;
        let g = seq![InstrV::IMov(crate::compiler::sonset(8 * (args.len() - j) + 16), vrax())];
        lemma_code_ok_inert(g);
        lemma_code_ok_concat(ins, g);
        lemma_code_ok_concat(ins + g, insr);
        assert(r->Ok_0.0 =~= ins + g + insr);
    }
}

/// A stack store stays below the frame bound: every `mov` into a word above
/// the stack pointer lands in the first `bound` slots.
pub open spec fn store_ok(i: InstrV, bound: int) -> bool {
    match i {
        InstrV::IMov(d, _) => match d {
            ValV::RegOffset(off) => 0 <= off && off < 8 * bound,
            _ => true,
        },
        _ => true,
    }
}

/// Every store of a stream stays inside the frame bound.
pub open spec fn stores_in(s: Seq<InstrV>, bound: int) -> bool {
    forall|j: int| 0 <= j < s.len() ==> store_ok(#[trigger] s[j], bound)
}

/// A larger frame covers the same stores.
proof fn lemma_stores_mono(s: Seq<InstrV>, b1: int, b2: int)
    requires
        stores_in(s, b1),
        b1 <= b2,
    ensures
        stores_in(s, b2),
{
    assert forall|j: int| 0 <= j < s.len() implies store_ok(#[trigger] s[j], b2) by {
        assert(store_ok(s[j], b1));
    }
}

/// Stores of a concatenation are the stores of its pieces.
proof fn lemma_stores_concat(s1: Seq<InstrV>, s2: Seq<InstrV>, b: int)
    requires
        stores_in(s1, b),
        stores_in(s2, b),
    ensures
        stores_in(s1 + s2, b),
{
    let s = s1 + s2;
    assert forall|j: int| 0 <= j < s.len() implies store_ok(#[trigger] s[j], b) by {
        if j < s1.len() {
            assert(store_ok(s1[j], b));
        } else {
            assert(store_ok(s2[j - s1.len()], b));
        }
    }
}

/// `depth(e)` slots above `si` are enough for everything an expression
/// stores: when every name in scope lies below `si`, every store of the
/// emitted code lands strictly below slot `si + depth(e)`.
#[verifier::rlimit(100)]
#[verifier::spinoff_prover]
pub proof fn lemma_depth_sufficient(
    e: Expr,
    si: int,
    env: Map<Seq<char>, i64>,
    vargs: Map<Seq<char>, usize>,
    ftable: Map<Seq<char>, usize>,
    l: int,
    bl: int,
    dep: int,
)
    requires
        0 <= si,
        si + expr_sz(e) <= MAX_EXPR_SIZE as int,
        env_ok(env, si),
    ensures
        compile_spec(e, si, env, vargs, ftable, l, bl, dep) matches Ok((s, _)) ==> stores_in(
            s,
            si + depth_spec(e),
        ),
    decreases e, 0int,
{
    let r = compile_spec(e, si, env, vargs, ftable, l, bl, dep);
    if r is Ok {
        let (s, lf) = r->Ok_0;
        let b = si + depth_spec(e);
        match e {
            Expr::Number(_) => {},
            Expr::True => {},
            Expr::False => {},
            Expr::Input => {},
            Expr::Id(_) => {},
            Expr::UnOp(op, sub) => {
                lemma_depth_sufficient(*sub, si, env, vargs, ftable, l, bl, dep);
                let (ins, l1) = compile_spec(*sub, si, env, vargs, ftable, l, bl, dep)->Ok_0;
                let tail = s.subrange(ins.len() as int, s.len() as int);
                assert(s =~= ins + tail);
                assert(stores_in(tail, b));
                lemma_stores_concat(ins, tail, b);
            },
            Expr::BinOp(op, e1, e2) => {
                lemma_depth_sufficient(*e2, si, env, vargs, ftable, l, bl, dep);
                let (ins2, l2) = compile_spec(*e2, si, env, vargs, ftable, l, bl, dep)->Ok_0;
                lemma_depth_sufficient(*e1, si + 1, env, vargs, ftable, l2, bl, dep);
                let (ins1, l1) = compile_spec(*e1, si + 1, env, vargs, ftable, l2, bl, dep)->Ok_0;
                lemma_stores_mono(ins2, si + depth_spec(*e2), b);
                lemma_stores_mono(ins1, si + 1 + depth_spec(*e1), b);
                let front = ins1.len() + ins2.len();
                assert forall|j: int| 0 <= j < s.len() implies store_ok(#[trigger] s[j], b) by {
                    let check2 = if (op matches crate::ast::Op2::Eq) {
                        Seq::<InstrV>::empty()
                    } else {
                        num_check()
                    };
                    let store = seq![InstrV::IMov(crate::compiler::soff(8 * si), vrax())];
                    if j < ins2.len() {
                        assert(store_ok(ins2[j], b));
                    } else if j < ins2.len() + check2.len() + store.len() {
                        assert(depth_spec(e) >= 1);
                    } else if j < ins2.len() + check2.len() + store.len() + ins1.len() {
                        assert(store_ok(ins1[j - ins2.len() - check2.len() - store.len()], b));
                    } else {
                        assert(depth_spec(e) >= 1);
                    }
                }
            },
            Expr::Let(binds, body) => {
                crate::depth::lemma_binds_depth_le_sz(binds@, 0);
                crate::depth::lemma_binds_sz_ge_len(binds@, 0);
                crate::depth::lemma_depth_le_sz(*body);
                lemma_binds_stores(binds@, 0, si, env, env, vargs, ftable, l, bl, dep, b);
                let (insb, envf, nsif, l2) = compile_binds_spec(
                    binds@,
                    0,
                    si,
                    env,
                    env,
                    vargs,
                    ftable,
                    l,
                    bl,
                    dep,
                )->Ok_0;
                lemma_depth_sufficient(*body, nsif, envf, vargs, ftable, l2, bl, dep);
                let (insbody, _) = compile_spec(*body, nsif, envf, vargs, ftable, l2, bl, dep)->Ok_0;
                lemma_stores_mono(insbody, nsif + depth_spec(*body), b);
                lemma_stores_concat(insb, insbody, b);
            },
            Expr::SetVar(x, sub) => {
                lemma_depth_sufficient(*sub, si, env, vargs, ftable, l, bl, dep);
                let (ins, _) = compile_spec(*sub, si, env, vargs, ftable, l, bl, dep)->Ok_0;
                let tail = seq![InstrV::IMov(crate::compiler::soff(env[x@] as int), vrax())];
                assert(s =~= ins + tail);
                assert(env[x@] < 8 * si);
                assert(stores_in(tail, b));
                lemma_stores_concat(ins, tail, b);
            },
            Expr::If(e1, e2, e3) => {
                lemma_depth_sufficient(*e1, si, env, vargs, ftable, l, bl, dep);
                let (i1, l1) = compile_spec(*e1, si, env, vargs, ftable, l, bl, dep)->Ok_0;
                lemma_depth_sufficient(*e2, si, env, vargs, ftable, l1, bl, dep);
                let (i2, l2) = compile_spec(*e2, si, env, vargs, ftable, l1, bl, dep)->Ok_0;
                lemma_depth_sufficient(*e3, si, env, vargs, ftable, l2, bl, dep);
                let (i3, l3) = compile_spec(*e3, si, env, vargs, ftable, l2, bl, dep)->Ok_0;
                lemma_stores_mono(i1, si + depth_spec(*e1), b);
                lemma_stores_mono(i2, si + depth_spec(*e2), b);
                lemma_stores_mono(i3, si + depth_spec(*e3), b);
                let g1 = seq![
                    InstrV::Cmp(vrax(), imm(3)),
                    InstrV::Je(crate::compiler::lnum(l3)),
                ];
                let g2 = seq![
                    InstrV::Jmp(crate::compiler::lnum(l3 + 1)),
                    InstrV::Nothing(crate::compiler::lnum(l3)),
                ];
                let g3 = seq![InstrV::Nothing(crate::compiler::lnum(l3 + 1))];
                lemma_stores_concat(i1, g1, b);
                lemma_stores_concat(i1 + g1, i2, b);
                lemma_stores_concat(i1 + g1 + i2, g2, b);
                lemma_stores_concat(i1 + g1 + i2 + g2, i3, b);
                lemma_stores_concat(i1 + g1 + i2 + g2 + i3, g3, b);
                assert(s =~= i1 + g1 + i2 + g2 + i3 + g3);
            },
            Expr::Block(es) => {
                lemma_seq_stores(es@, 0, si, env, vargs, ftable, l, bl, dep, b);
            },
            Expr::Loop(body) => {
                lemma_depth_sufficient(*body, si, env, vargs, ftable, l + 2, l + 1, dep);
                let (ins, _) = compile_spec(*body, si, env, vargs, ftable, l + 2, l + 1, dep)->Ok_0;
                let g1 = seq![InstrV::Nothing(crate::compiler::lnum(l))];
                let g2 = seq![
                    InstrV::Jmp(crate::compiler::lnum(l)),
                    InstrV::Nothing(crate::compiler::lnum(l + 1)),
                ];
                lemma_stores_concat(g1, ins, b);
                lemma_stores_concat(g1 + ins, g2, b);
                assert(s =~= g1 + ins + g2);
            },
            Expr::Break(sub) => {
                if bl != -1 {
                    lemma_depth_sufficient(*sub, si, env, vargs, ftable, l, bl, dep);
                    let (ins, _) = compile_spec(*sub, si, env, vargs, ftable, l, bl, dep)->Ok_0;
                    let tail = s.subrange(ins.len() as int, s.len() as int);
                    assert(s =~= ins + tail);
                    assert(stores_in(tail, b));
                    lemma_stores_concat(ins, tail, b);
                }
            },
            Expr::FuncCall(f, args) => {
                if f@ == "print"@ {
                    assert(exprs_sz(args@, 0) >= expr_sz(args@[0]));
                    lemma_depth_sufficient(args@[0], si, env, vargs, ftable, l, bl, dep);
                    let (ins, _) = compile_spec(args@[0], si, env, vargs, ftable, l, bl, dep)->Ok_0;
                    crate::depth::lemma_exprs_depth_le_sz(args@, 0);
                    assert(exprs_depth_spec(args@, 0) >= depth_spec(args@[0])) by {
                        assert(exprs_depth_spec(args@, 0) == crate::depth::nmax(
                            depth_spec(args@[0]),
                            exprs_depth_spec(args@, 1),
                        ));
                    }
                    lemma_stores_mono(ins, si + depth_spec(args@[0]), b);
                    let tail = s.subrange(ins.len() as int, s.len() as int);
                    assert(s =~= ins + tail);
                    assert(stores_in(tail, b));
                    lemma_stores_concat(ins, tail, b);
                } else {
                    lemma_args_stores(args@, args@.len() as int, si, env, vargs, ftable, l, bl, dep, b);
                    let (insa, _) = compile_args_spec(
                        args@,
                        args@.len() as int,
                        si,
                        env,
                        vargs,
                        ftable,
                        l,
                        bl,
                        dep,
                    )->Ok_0;
                    let g1 = seq![InstrV::IMov(crate::compiler::sonset(8), crate::compiler::vrdi())];
                    let k = imm(8 * args@.len() as int + 8);
                    let g2 = seq![
                        InstrV::ISub(vrsp(), k),
                        InstrV::Call(LabelV::LName(f@)),
                        InstrV::IAdd(vrsp(), k),
                        InstrV::IMov(crate::compiler::vrdi(), crate::compiler::sonset(8)),
                    ];
                    lemma_stores_concat(g1, insa, b);
                    lemma_stores_concat(g1 + insa, g2, b);
                    assert(s =~= g1 + insa + g2);
                }
            },
        }
    }
}

/// The bindings of a `let` store each slot below the frame bound: position
/// `k` of the list goes to slot `nsi + k - i`, and each initialiser works
/// above its own slot.
proof fn lemma_binds_stores(
    bs: Seq<(String, Expr)>,
    i: int,
    nsi: int,
    nenv: Map<Seq<char>, i64>,
    env0: Map<Seq<char>, i64>,
    vargs: Map<Seq<char>, usize>,
    ftable: Map<Seq<char>, usize>,
    l: int,
    bl: int,
    dep: int,
    b: int,
)
    requires
        0 <= nsi,
        0 <= i <= bs.len(),
        nsi + binds_sz(bs, i) <= MAX_EXPR_SIZE as int,
        env_ok(nenv, nsi),
        b >= nsi + (bs.len() - i),
        b >= nsi - i + binds_depth_spec(bs, i),
    ensures
        compile_binds_spec(bs, i, nsi, nenv, env0, vargs, ftable, l, bl, dep) matches Ok(
            (s, envf, nsif, _),
        ) ==> stores_in(s, b) && env_ok(envf, nsif) && nsif == nsi + (bs.len() - i),
    decreases bs, bs.len() - i,
{
    let r = compile_binds_spec(bs, i, nsi, nenv, env0, vargs, ftable, l, bl, dep);
    if r is Ok && 0 <= i < bs.len() {
        let x = bs[i].0;
        lemma_depth_sufficient(bs[i].1, nsi, nenv, vargs, ftable, l, bl, dep);
        let (ins, l2) = compile_spec(bs[i].1, nsi, nenv, vargs, ftable, l, bl, dep)->Ok_0;
        assert(binds_depth_spec(bs, i) == crate::depth::nmax(
            (depth_spec(bs[i].1) + i) as nat,
            binds_depth_spec(bs, i + 1),
        ));
        lemma_stores_mono(ins, nsi + depth_spec(bs[i].1), b);
        let nenv2 = nenv.insert(x@, (8 * nsi) as i64);
        assert(env_ok(nenv2, nsi + 1));
        lemma_binds_stores(bs, i + 1, nsi + 1, nenv2, env0, vargs, ftable, l2, bl, dep, b);
        let (insr, envf, nsif, _) = compile_binds_spec(
            bs,
            i + 1,
            nsi + 1,
            nenv2,
            env0,
            vargs,
            ftable,
            l2,
            bl,
            dep,
        )->Ok_0;
        let g = seq![InstrV::IMov(crate::compiler::soff(8 * nsi), vrax())];
        assert(stores_in(g, b));
        lemma_stores_concat(ins, g, b);
        lemma_stores_concat(ins + g, insr, b);
        assert(r->Ok_0.0 =~= ins + g + insr);
    }
}

/// Every expression of a block stores inside the same frame bound.
proof fn lemma_seq_stores(
    es: Seq<Expr>,
    i: int,
    si: int,
    env: Map<Seq<char>, i64>,
    vargs: Map<Seq<char>, usize>,
    ftable: Map<Seq<char>, usize>,
    l: int,
    bl: int,
    dep: int,
    b: int,
)
    requires
        0 <= si,
        0 <= i <= es.len(),
        si + exprs_sz(es, i) <= MAX_EXPR_SIZE as int,
        env_ok(env, si),
        b >= si + exprs_depth_spec(es, i),
    ensures
        compile_seq_spec(es, i, si, env, vargs, ftable, l, bl, dep) matches Ok((s, _)) ==> stores_in(
            s,
            b,
        ),
    decreases es, es.len() - i,
{
    let r = compile_seq_spec(es, i, si, env, vargs, ftable, l, bl, dep);
    if r is Ok && 0 <= i < es.len() {
        lemma_depth_sufficient(es[i], si, env, vargs, ftable, l, bl, dep);
        let (ins, l2) = compile_spec(es[i], si, env, vargs, ftable, l, bl, dep)->Ok_0;
        lemma_stores_mono(ins, si + depth_spec(es[i]), b);
        lemma_seq_stores(es, i + 1, si, env, vargs, ftable, l2, bl, dep, b);
        let (insr, _) = compile_seq_spec(es, i + 1, si, env, vargs, ftable, l2, bl, dep)->Ok_0;
        lemma_stores_concat(ins, insr, b);
    }
}

/// Every argument of a call stores inside the same frame bound; the staging
/// writes below the stack pointer are not frame stores.
proof fn lemma_args_stores(
    args: Seq<Expr>,
    j: int,
    si: int,
    env: Map<Seq<char>, i64>,
    vargs: Map<Seq<char>, usize>,
    ftable: Map<Seq<char>, usize>,
    l: int,
    bl: int,
    dep: int,
    b: int,
)
    requires
        0 <= si,
        0 <= j <= args.len(),
        si + exprs_sz(args, 0) <= MAX_EXPR_SIZE as int,
        env_ok(env, si),
        b >= si + exprs_depth_spec(args, 0),
    ensures
        compile_args_spec(args, j, si, env, vargs, ftable, l, bl, dep) matches Ok((s, _))
            ==> stores_in(s, b),
    decreases args, j,
{
    let r = compile_args_spec(args, j, si, env, vargs, ftable, l, bl, dep);
    if r is Ok && 0 < j <= args.len() {
        crate::depth::lemma_exprs_sz_parts(args, 0, j - 1);
        lemma_depth_sufficient(args[j - 1], si, env, vargs, ftable, l, bl, dep);
        let (ins, l2) = compile_spec(args[j - 1], si, env, vargs, ftable, l, bl, dep)->Ok_0;
        lemma_exprs_depth_covers(args, 0, j - 1);
        lemma_stores_mono(ins, si + depth_spec(args[j - 1]), b);
        lemma_args_stores(args, j - 1, si, env, vargs, ftable, l2, bl, dep, b);
        let (insr, _) = compile_args_spec(args, j - 1, si, env, vargs, ftable, l2, bl, dep)->Ok_0;
        let g = seq![InstrV::IMov(crate::compiler::sonset(8 * (args.len() - j) + 16), vrax())];
        assert(stores_in(g, b));
        lemma_stores_concat(ins, g, b);
        lemma_stores_concat(ins + g, insr, b);
        assert(r->Ok_0.0 =~= ins + g + insr);
    }
}

/// The joined depth of a list covers each of its members.
proof fn lemma_exprs_depth_covers(es: Seq<Expr>, i: int, k: int)
    requires
        0 <= i <= k < es.len(),
    ensures
        exprs_depth_spec(es, i) >= depth_spec(es[k]),
    decreases k - i,
{
    if i < k {
        lemma_exprs_depth_covers(es, i + 1, k);
    }
}

} // verus!
