//! The instruction stream the code generator produces, and its ghost view:
//! the same shape with mathematical integers for immediates and character
//! sequences for label names, so that contracts and lemmas can speak of
//! emitted code without executable strings.

use vstd::prelude::*;

verus! {

/// The registers the generated code touches.
#[derive(Debug, Clone, Copy, PartialEq, Eq, Structural)]
pub enum Reg {
    Rax,
    Rbx,
    Rsp,
    Rdi,
}

/// An instruction operand: a register, an immediate, or a stack word above
/// (`RegOffset`, printed `[rsp + k]`) or below (`RegOnset`, printed
/// `[rsp - k]`) the stack pointer.  Memory operands are always rsp-based:
/// the generator addresses memory through no other register.
#[derive(Debug)]
pub enum Val {
    Reg(Reg),
    Imm(i64),
    RegOnset(i64),
    RegOffset(i64),
}

/// A jump or call target: one of the two shared trap sites, or a named
/// label.
#[derive(Debug)]
pub enum Label {
    TypeError,
    Overflow,
    LName(String),
}

/// One x86-64 instruction; `Nothing` is a label definition.
#[derive(Debug)]
pub enum Instr {
    IMov(Val, Val),
    IAdd(Val, Val),
    ISub(Val, Val),
    IMul(Val, Val),
    Test(Val, Val),
    Cmp(Val, Val),
    Sar(Val, Val),
    Xor(Val, Val),
    Push(Val),
    Pop(Val),
    Jmp(Label),
    Je(Label),
    Jne(Label),
    Jg(Label),
    Jl(Label),
    Jge(Label),
    Jle(Label),
    Jo(Label),
    Nothing(Label),
    Call(Label),
}

/// Ghost view of an operand.
pub enum ValV {
    Reg(Reg),
    Imm(int),
    RegOnset(int),
    RegOffset(int),
}

/// Ghost view of a label.
pub enum LabelV {
    TypeError,
    Overflow,
    LName(Seq<char>),
}

/// Ghost view of an instruction.
pub enum InstrV {
    IMov(ValV, ValV),
    IAdd(ValV, ValV),
    ISub(ValV, ValV),
    IMul(ValV, ValV),
    Test(ValV, ValV),
    Cmp(ValV, ValV),
    Sar(ValV, ValV),
    Xor(ValV, ValV),
    Push(ValV),
    Pop(ValV),
    Jmp(LabelV),
    Je(LabelV),
    Jne(LabelV),
    Jg(LabelV),
    Jl(LabelV),
    Jge(LabelV),
    Jle(LabelV),
    Jo(LabelV),
    Nothing(LabelV),
    Call(LabelV),
}

impl View for Val {
    type V = ValV;

    open spec fn view(&self) -> ValV {
        match self {
            Val::Reg(r) => ValV::Reg(*r),
            Val::Imm(n) => ValV::Imm(*n as int),
            Val::RegOnset(n) => ValV::RegOnset(*n as int),
            Val::RegOffset(n) => ValV::RegOffset(*n as int),
        }
    }
}

impl View for Label {
    type V = LabelV;

    open spec fn view(&self) -> LabelV {
        match self {
            Label::TypeError => LabelV::TypeError,
            Label::Overflow => LabelV::Overflow,
            Label::LName(s) => LabelV::LName(s@),
        }
    }
}

impl View for Instr {
    type V = InstrV;

    open spec fn view(&self) -> InstrV {
        match self {
            Instr::IMov(a, b) => InstrV::IMov(a@, b@),
            Instr::IAdd(a, b) => InstrV::IAdd(a@, b@),
            Instr::ISub(a, b) => InstrV::ISub(a@, b@),
            Instr::IMul(a, b) => InstrV::IMul(a@, b@),
            Instr::Test(a, b) => InstrV::Test(a@, b@),
            Instr::Cmp(a, b) => InstrV::Cmp(a@, b@),
            Instr::Sar(a, b) => InstrV::Sar(a@, b@),
            Instr::Xor(a, b) => InstrV::Xor(a@, b@),
            Instr::Push(a) => InstrV::Push(a@),
            Instr::Pop(a) => InstrV::Pop(a@),
            Instr::Jmp(l) => InstrV::Jmp(l@),
            Instr::Je(l) => InstrV::Je(l@),
            Instr::Jne(l) => InstrV::Jne(l@),
            Instr::Jg(l) => InstrV::Jg(l@),
            Instr::Jl(l) => InstrV::Jl(l@),
            Instr::Jge(l) => InstrV::Jge(l@),
            Instr::Jle(l) => InstrV::Jle(l@),
            Instr::Jo(l) => InstrV::Jo(l@),
            Instr::Nothing(l) => InstrV::Nothing(l@),
            Instr::Call(l) => InstrV::Call(l@),
        }
    }
}

/// The ghost views of a stream of instructions.
pub open spec fn instrs_vw(s: Seq<Instr>) -> Seq<InstrV> {
    s.map_values(|i: Instr| i@)
}

} // verus!
