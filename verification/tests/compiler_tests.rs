use snek::ast::{CompileError, Expr, Op2};
use snek::compiler::compile_program;
use snek::depth::depth;
use snek::emit::instr_to_str;
use snek::instr::{Instr, Label, Reg, Val};
use snek::parser::parse_prog;
use snek::sexpr::SExp;

fn sym(s: &str) -> SExp {
    SExp::Sym(s.to_string())
}

fn num(n: i64) -> SExp {
    SExp::Int(n)
}

fn list(items: Vec<SExp>) -> SExp {
    SExp::List(items)
}

fn compile_src(forms: Vec<SExp>) -> Result<String, CompileError> {
    let prog = SExp::List(forms);
    let mut ft = snek::envmap::tbl_new();
    let stmts = parse_prog(&prog, &mut ft)?;
    compile_program(&stmts, &ft)
}

const TRAPS: &str = "\nTYPEERROR:\n  mov rdi, 1\n  push rsp\n  call snek_error\nOVERFLOW:\n  mov rdi, 2\n  push rsp\n  call snek_error\n";

#[test]
fn number_literal_program() {
    let out = compile_src(vec![num(5)]).unwrap();
    let expected = format!(
        "\nour_code_starts_here:\nsub rsp, 16\nmov rax, 10\nadd rsp, 16\n  ret{}",
        TRAPS
    );
    assert_eq!(out, expected);
}

#[test]
fn addition_program() {
    let out = compile_src(vec![list(vec![sym("+"), num(1), num(2)])]).unwrap();
    let expected = format!(
        "\nour_code_starts_here:\nsub rsp, 24\nmov rax, 4\ntest rax, 1\njne TYPEERROR\nmov [rsp + 0], rax\nmov rax, 2\ntest rax, 1\njne TYPEERROR\nadd rax, [rsp + 0]\njo OVERFLOW\nadd rsp, 24\n  ret{}",
        TRAPS
    );
    assert_eq!(out, expected);
}

#[test]
fn booleans_and_input() {
    let out = compile_src(vec![list(vec![sym("if"), sym("input"), sym("true"), sym("false")])])
        .unwrap();
    assert!(out.contains("\nmov rax, rdi"));
    assert!(out.contains("\ncmp rax, 3"));
    assert!(out.contains("\nmov rax, 7"));
    assert!(out.contains("\nmov rax, 3"));
}

#[test]
fn let_binding_uses_slot() {
    let out = compile_src(vec![list(vec![
        sym("let"),
        list(vec![list(vec![sym("x"), num(5)])]),
        list(vec![sym("+"), sym("x"), sym("x")]),
    ])])
    .unwrap();
    assert!(out.contains("\nmov [rsp + 0], rax"));
    assert!(out.contains("\nmov rax, [rsp + 0]"));
}

#[test]
fn let_shadows_only_after_initialiser() {
    // (let ((x 1)) (let ((x x)) x)) refers to the outer x and compiles.
    let out = compile_src(vec![list(vec![
        sym("let"),
        list(vec![list(vec![sym("x"), num(1)])]),
        list(vec![
            sym("let"),
            list(vec![list(vec![sym("x"), sym("x")])]),
            sym("x"),
        ]),
    ])]);
    assert!(out.is_ok());
}

#[test]
fn function_definition_and_call() {
    let out = compile_src(vec![
        list(vec![
            sym("fun"),
            list(vec![sym("double"), sym("x")]),
            list(vec![sym("*"), sym("x"), num(2)]),
        ]),
        list(vec![sym("double"), num(21)]),
    ])
    .unwrap();
    assert!(out.contains("\ndouble:"));
    assert!(out.contains("\ncall double"));
    assert!(out.contains("\nsar rax, 1"));
    assert!(out.contains("\nimul rax, [rsp + 0]"));
    assert!(out.contains("\nsub rsp, 16\ncall double\nadd rsp, 16"));
    assert!(out.contains("\nmov [rsp - 8], rdi"));
    assert!(out.contains("\nmov [rsp - 16], rax"));
}

#[test]
fn print_builtin_call() {
    let out = compile_src(vec![list(vec![sym("print"), num(3)])]).unwrap();
    assert!(out.contains("\npush rdi\nmov rdi, rax\npush rax\ncall snek_print\npop rax\npop rdi"));
}

#[test]
fn loop_break_labels() {
    let out = compile_src(vec![list(vec![sym("loop"), list(vec![sym("break"), num(1)])])])
        .unwrap();
    assert!(out.contains("\nlabel0:"));
    assert!(out.contains("\njmp label1"));
    assert!(out.contains("\njmp label0"));
    assert!(out.contains("\nlabel1:"));
}

#[test]
fn break_in_call_argument_compiles() {
    // A break inside a call argument jumps to the enclosing loop's end.
    let out = compile_src(vec![
        list(vec![sym("fun"), list(vec![sym("f"), sym("x")]), sym("x")]),
        list(vec![
            sym("loop"),
            list(vec![sym("f"), list(vec![sym("break"), num(1)])]),
        ]),
    ]);
    assert!(out.is_ok());
    assert!(out.unwrap().contains("\njmp label1"));
}

#[test]
fn break_in_print_argument_compiles() {
    let out = compile_src(vec![list(vec![
        sym("loop"),
        list(vec![sym("print"), list(vec![sym("break"), num(1)])]),
    ])]);
    assert!(out.is_ok());
}

#[test]
fn equality_checks_tag_classes() {
    let out = compile_src(vec![list(vec![sym("="), sym("true"), num(1)])]).unwrap();
    assert!(out.contains("\nmov rbx, 0\nxor rbx, rax\nxor rbx, [rsp + 0]\ntest rbx, 1\njne TYPEERROR"));
}

#[test]
fn largest_literal_compiles() {
    let out = compile_src(vec![num(4611686018427387903)]);
    assert!(out.is_ok());
    assert!(out.unwrap().contains("\nmov rax, 9223372036854775806"));
}

#[test]
fn too_large_literal_rejected() {
    let out = compile_src(vec![num(4611686018427387904)]);
    assert_eq!(out.unwrap_err(), CompileError::NumberOutOfRange);
}

#[test]
fn smallest_literal_compiles() {
    let out = compile_src(vec![num(-4611686018427387904)]);
    assert!(out.is_ok());
    assert!(out.unwrap().contains("\nmov rax, -9223372036854775808"));
}

#[test]
fn too_small_literal_rejected() {
    let out = compile_src(vec![num(-4611686018427387905)]);
    assert_eq!(out.unwrap_err(), CompileError::NumberOutOfRange);
}

#[test]
fn empty_block_rejected_at_parse_time() {
    let prog = SExp::List(vec![list(vec![sym("block")])]);
    let mut ft = snek::envmap::tbl_new();
    assert_eq!(parse_prog(&prog, &mut ft).unwrap_err(), CompileError::Syntax);
}

#[test]
fn empty_let_rejected_at_parse_time() {
    let prog = SExp::List(vec![list(vec![sym("let"), list(vec![]), num(5)])]);
    let mut ft = snek::envmap::tbl_new();
    assert_eq!(parse_prog(&prog, &mut ft).unwrap_err(), CompileError::Syntax);
}

#[test]
fn unbound_identifier_rejected() {
    assert_eq!(compile_src(vec![sym("y")]).unwrap_err(), CompileError::UnboundIdentifier);
}

#[test]
fn keyword_binder_rejected() {
    let out = compile_src(vec![list(vec![
        sym("let"),
        list(vec![list(vec![sym("if"), num(1)])]),
        num(2),
    ])]);
    assert_eq!(out.unwrap_err(), CompileError::Keyword);
}

#[test]
fn duplicate_binding_rejected() {
    let out = compile_src(vec![list(vec![
        sym("let"),
        list(vec![
            list(vec![sym("x"), num(1)]),
            list(vec![sym("x"), num(2)]),
        ]),
        sym("x"),
    ])]);
    assert_eq!(out.unwrap_err(), CompileError::DuplicateBinding);
}

#[test]
fn break_outside_loop_rejected() {
    let out = compile_src(vec![list(vec![sym("break"), num(1)])]);
    assert_eq!(out.unwrap_err(), CompileError::BreakOutsideLoop);
}

#[test]
fn wrong_arity_rejected() {
    let out = compile_src(vec![
        list(vec![sym("fun"), list(vec![sym("f"), sym("x")]), sym("x")]),
        list(vec![sym("f"), num(1), num(2)]),
    ]);
    assert_eq!(out.unwrap_err(), CompileError::WrongArity);
}

#[test]
fn unknown_function_rejected() {
    let out = compile_src(vec![list(vec![sym("g"), num(1)])]);
    assert_eq!(out.unwrap_err(), CompileError::UnknownFunction);
}

#[test]
fn duplicate_function_rejected() {
    let out = compile_src(vec![
        list(vec![sym("fun"), list(vec![sym("f"), sym("x")]), sym("x")]),
        list(vec![sym("fun"), list(vec![sym("f"), sym("y")]), sym("y")]),
        num(1),
    ]);
    assert_eq!(out.unwrap_err(), CompileError::DuplicateFunction);
}

#[test]
fn reserved_function_name_rejected() {
    let out = compile_src(vec![
        list(vec![sym("fun"), list(vec![sym("let"), sym("x")]), sym("x")]),
        num(1),
    ]);
    assert_eq!(out.unwrap_err(), CompileError::ReservedName);
}

#[test]
fn duplicate_parameter_rejected() {
    let out = compile_src(vec![
        list(vec![sym("fun"), list(vec![sym("f"), sym("x"), sym("x")]), sym("x")]),
        num(1),
    ]);
    assert_eq!(out.unwrap_err(), CompileError::DuplicateParameter);
}

#[test]
fn set_on_non_symbol_rejected() {
    let prog = SExp::List(vec![list(vec![sym("set!"), num(5), num(1)])]);
    let mut ft = snek::envmap::tbl_new();
    assert_eq!(parse_prog(&prog, &mut ft).unwrap_err(), CompileError::Syntax);
}

#[test]
fn float_atom_rejected() {
    let prog = SExp::List(vec![SExp::Other]);
    let mut ft = snek::envmap::tbl_new();
    assert_eq!(parse_prog(&prog, &mut ft).unwrap_err(), CompileError::Syntax);
}

#[test]
fn depth_of_binary_operator() {
    let e = Expr::BinOp(
        Op2::Plus,
        Box::new(Expr::Number(1)),
        Box::new(Expr::Number(2)),
    );
    assert_eq!(depth(&e), 1);
}

#[test]
fn depth_of_let_counts_slots() {
    let e = Expr::Let(
        vec![
            ("a".to_string(), Expr::Number(1)),
            ("b".to_string(), Expr::Number(2)),
        ],
        Box::new(Expr::Id("b".to_string())),
    );
    assert_eq!(depth(&e), 2);
}

#[test]
fn instruction_text_is_exact() {
    assert_eq!(
        instr_to_str(&Instr::IMov(Val::Reg(Reg::Rax), Val::Imm(-5))),
        "\nmov rax, -5"
    );
    assert_eq!(
        instr_to_str(&Instr::IAdd(Val::Reg(Reg::Rax), Val::RegOffset(16))),
        "\nadd rax, [rsp + 16]"
    );
    assert_eq!(
        instr_to_str(&Instr::IMov(Val::RegOnset(8), Val::Reg(Reg::Rdi))),
        "\nmov [rsp - 8], rdi"
    );
    assert_eq!(instr_to_str(&Instr::Jne(Label::TypeError)), "\njne TYPEERROR");
    assert_eq!(instr_to_str(&Instr::Jo(Label::Overflow)), "\njo OVERFLOW");
    assert_eq!(
        instr_to_str(&Instr::Nothing(Label::LName("label3".to_string()))),
        "\nlabel3:"
    );
}

#[test]
fn block_evaluates_in_order() {
    let out = compile_src(vec![
        list(vec![sym("fun"), list(vec![sym("even"), sym("n")]), sym("n")]),
        list(vec![
            sym("block"),
            list(vec![sym("print"), sym("input")]),
            list(vec![sym("even"), sym("input")]),
        ]),
    ]);
    assert!(out.is_ok());
}

#[test]
fn reserved_head_with_wrong_shape_is_parse_error() {
    let prog = SExp::List(vec![list(vec![sym("add1")])]);
    let mut ft = snek::envmap::tbl_new();
    assert_eq!(parse_prog(&prog, &mut ft).unwrap_err(), CompileError::Syntax);
}
