//! Turning the instruction stream into assembly text, one line per
//! instruction, in Intel syntax.

use vstd::prelude::*;
use vstd::string::StringExecFns;
use crate::instr::{instrs_vw, Instr, InstrV, Label, LabelV, Reg, Val, ValV};
use crate::numfmt::{i64_to_string, str_of_int, str_of_nat, u64_to_string};

verus! {

/// The printed name of a register.
pub open spec fn reg_str(r: Reg) -> Seq<char> {
    match r {
        Reg::Rax => "rax"@,
        Reg::Rbx => "rbx"@,
        Reg::Rsp => "rsp"@,
        Reg::Rdi => "rdi"@,
    }
}

/// The printed form of an operand.
pub open spec fn val_str(v: ValV) -> Seq<char> {
    match v {
        ValV::Imm(n) => str_of_int(n),
        ValV::Reg(r) => reg_str(r),
        ValV::RegOffset(off) => "[rsp + "@ + str_of_int(off) + "]"@,
        ValV::RegOnset(off) => "[rsp - "@ + str_of_int(off) + "]"@,
    }
}

/// The printed form of a label.
pub open spec fn label_str(l: LabelV) -> Seq<char> {
    match l {
        LabelV::TypeError => "TYPEERROR"@,
        LabelV::Overflow => "OVERFLOW"@,
        LabelV::LName(s) => s,
    }
}

/// The numbered label claimed by the label counter at `l`.
pub open spec fn label_name(l: int) -> Seq<char> {
    "label"@ + str_of_nat(l as nat)
}

/// The one line an instruction prints as, led by a newline.
pub open spec fn instr_str(i: InstrV) -> Seq<char> {
    match i {
        InstrV::IMov(a, b) => "\nmov "@ + val_str(a) + ", "@ + val_str(b),
        InstrV::IAdd(a, b) => "\nadd "@ + val_str(a) + ", "@ + val_str(b),
        InstrV::ISub(a, b) => "\nsub "@ + val_str(a) + ", "@ + val_str(b),
        InstrV::IMul(a, b) => "\nimul "@ + val_str(a) + ", "@ + val_str(b),
        InstrV::Test(a, b) => "\ntest "@ + val_str(a) + ", "@ + val_str(b),
        InstrV::Cmp(a, b) => "\ncmp "@ + val_str(a) + ", "@ + val_str(b),
        InstrV::Sar(a, b) => "\nsar "@ + val_str(a) + ", "@ + val_str(b),
        InstrV::Xor(a, b) => "\nxor "@ + val_str(a) + ", "@ + val_str(b),
        InstrV::Push(a) => "\npush "@ + val_str(a),
        InstrV::Pop(a) => "\npop "@ + val_str(a),
        InstrV::Jmp(l) => "\njmp "@ + label_str(l),
        InstrV::Je(l) => "\nje "@ + label_str(l),
        InstrV::Jne(l) => "\njne "@ + label_str(l),
        InstrV::Jg(l) => "\njg "@ + label_str(l),
        InstrV::Jl(l) => "\njl "@ + label_str(l),
        InstrV::Jge(l) => "\njge "@ + label_str(l),
        InstrV::Jle(l) => "\njle "@ + label_str(l),
        InstrV::Jo(l) => "\njo "@ + label_str(l),
        InstrV::Nothing(l) => "\n"@ + label_str(l) + ":"@,
        InstrV::Call(l) => "\ncall "@ + label_str(l),
    }
}

/// The lines of the instructions from position `i` on, concatenated.
pub open spec fn instrs_str(s: Seq<InstrV>, i: int) -> Seq<char>
    decreases s.len() - i,
{
    if 0 <= i < s.len() {
        instr_str(s[i]) + instrs_str(s, i + 1)
    } else {
        Seq::<char>::empty()
    }
}

/// Print a register.
pub fn reg_to_str(r: &Reg) -> (s: String)
    ensures
        s@ == reg_str(*r),
{
    match r {
        Reg::Rax => String::from_str("rax"),
        Reg::Rbx => String::from_str("rbx"),
        Reg::Rsp => String::from_str("rsp"),
        Reg::Rdi => String::from_str("rdi"),
    }
}

/// Print an operand.
pub fn val_to_str(v: &Val) -> (s: String)
    ensures
        s@ == val_str(v@),
{
    match v {
        Val::Imm(n) => i64_to_string(*n),
        Val::Reg(r) => reg_to_str(r),
        Val::RegOffset(off) => {
            let mut s = String::from_str("[rsp + ");
            s.append(i64_to_string(*off).as_str());
            s.append("]");
            proof {
                assert(s@ =~= val_str(v@));
            }
            s
        },
        Val::RegOnset(off) => {
            let mut s = String::from_str("[rsp - ");
            s.append(i64_to_string(*off).as_str());
            s.append("]");
            proof {
                assert(s@ =~= val_str(v@));
            }
            s
        },
    }
}

/// Print a label.
pub fn label_to_str(l: &Label) -> (s: String)
    ensures
        s@ == label_str(l@),
{
    match l {
        Label::TypeError => String::from_str("TYPEERROR"),
        Label::Overflow => String::from_str("OVERFLOW"),
        Label::LName(name) => name.clone(),
    }
}

/// The numbered label the counter value `l` names.
pub fn make_label(l: i64) -> (s: String)
    requires
        l >= 0,
    ensures
        s@ == label_name(l as int),
{
    let mut s = String::from_str("label");
    s.append(u64_to_string(l as u64).as_str());
    s
}

/// A two-operand instruction line.
fn two_op_str(op: &str, a: &Val, b: &Val) -> (s: String)
    ensures
        s@ == op@ + val_str(a@) + ", "@ + val_str(b@),
{
    let mut s = String::from_str(op);
    s.append(val_to_str(a).as_str());
    s.append(", ");
    s.append(val_to_str(b).as_str());
    proof {
        assert(s@ =~= op@ + val_str(a@) + ", "@ + val_str(b@));
    }
    s
}

/// A one-operand instruction line.
fn one_op_str(op: &str, a: &Val) -> (s: String)
    ensures
        s@ == op@ + val_str(a@),
{
    let mut s = String::from_str(op);
    s.append(val_to_str(a).as_str());
    s
}

/// A jump, call or label line.
fn label_op_str(op: &str, l: &Label) -> (s: String)
    ensures
        s@ == op@ + label_str(l@),
{
    let mut s = String::from_str(op);
    s.append(label_to_str(l).as_str());
    s
}

/// Print one instruction as its line of assembly.
pub fn instr_to_str(i: &Instr) -> (s: String)
    ensures
        s@ == instr_str(i@),
{
    match i {
        Instr::IMov(a, b) => two_op_str("\nmov ", a, b),
        Instr::IAdd(a, b) => two_op_str("\nadd ", a, b),
        Instr::ISub(a, b) => two_op_str("\nsub ", a, b),
        Instr::IMul(a, b) => two_op_str("\nimul ", a, b),
        Instr::Test(a, b) => two_op_str("\ntest ", a, b),
        Instr::Cmp(a, b) => two_op_str("\ncmp ", a, b),
        Instr::Sar(a, b) => two_op_str("\nsar ", a, b),
        Instr::Xor(a, b) => two_op_str("\nxor ", a, b),
        Instr::Push(a) => one_op_str("\npush ", a),
        Instr::Pop(a) => one_op_str("\npop ", a),
        Instr::Jmp(l) => label_op_str("\njmp ", l),
        Instr::Je(l) => label_op_str("\nje ", l),
        Instr::Jne(l) => label_op_str("\njne ", l),
        Instr::Jg(l) => label_op_str("\njg ", l),
        Instr::Jl(l) => label_op_str("\njl ", l),
        Instr::Jge(l) => label_op_str("\njge ", l),
        Instr::Jle(l) => label_op_str("\njle ", l),
        Instr::Jo(l) => label_op_str("\njo ", l),
        Instr::Nothing(l) => {
            let mut s = String::from_str("\n");
            s.append(label_to_str(l).as_str());
            s.append(":");
            proof {
                assert(s@ =~= instr_str(i@));
            }
            s
        },
        Instr::Call(l) => label_op_str("\ncall ", l),
    }
}

/// Print an instruction stream, one line each.
pub fn instrs_to_string(v: &Vec<Instr>) -> (s: String)
    ensures
        s@ == instrs_str(instrs_vw(v@), 0),
{
    let mut s = String::new();
    let mut i: usize = 0;
    while i < v.len()
        invariant
            i <= v.len(),
            s@ + instrs_str(instrs_vw(v@), i as int) == instrs_str(instrs_vw(v@), 0),
        decreases v.len() - i,
    {
        let line = instr_to_str(&v[i]);
        proof {
            assert(instrs_vw(v@)[i as int] == v@[i as int]@);
            assert((s@ + line@) + instrs_str(instrs_vw(v@), i as int + 1) =~= s@ + (line@
                + instrs_str(instrs_vw(v@), i as int + 1)));
        }
        s.append(line.as_str());
        i = i + 1;
    }
    proof {
        assert(s@ + instrs_str(instrs_vw(v@), v@.len() as int) =~= s@);
    }
    s
}

} // verus!
