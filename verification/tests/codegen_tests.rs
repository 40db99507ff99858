use dclang::backend::block::{compile_block, compile_lbl_block, compile_terminator};
use dclang::backend::context::{arg_loc, mangle, mk_lbl, stack_layout, Ctxt, Mangling};
use dclang::backend::insn::compile_insn;
use dclang::backend::lower::{compile_gep, compile_operand};
use dclang::backend::program::{compile_fdecl, compile_gdecl, compile_ginit, compile_prog};
use dclang::backend::types::{resolve_ty, TypeTable};
use dclang::backend::types::{is_pow2 as power_of_two, log2 as floor_log2, size_ty as size_of};
use dclang::llvm::{Block, Bop, Cnd, Fdecl, Ginit, Insn, Operand, Prog, Terminator, Ty};
use dclang::x86::{Asm, Data, Elem, Imm, Ins, Reg};

fn lines(code: &Vec<Ins>) -> Vec<String> {
    code.iter().map(|i| i.to_string()).collect()
}

fn body(e: &Elem) -> Vec<String> {
    match &e.body {
        Asm::Text(code) => lines(code),
        Asm::Data(items) => items.iter().map(|d| d.to_string()).collect(),
    }
}

fn pair() -> Ty {
    Ty::Struct(vec![Ty::I64, Ty::I64])
}

fn triple() -> Ty {
    Ty::Struct(vec![Ty::I64, Ty::I64, Ty::I64])
}

fn empty_block() -> Block {
    Block::new(vec![], ("t".to_string(), Terminator::Ret(Ty::Void, None)))
}

fn names(ns: &[&str]) -> Vec<String> {
    ns.iter().map(|n| n.to_string()).collect()
}

fn ctxt_with<'a>(decls: &'a Vec<(String, Ty)>, locals: &[&str], mangling: Mangling) -> Ctxt<'a> {
    let cfg = (empty_block(), vec![]);
    Ctxt {
        tdecls: TypeTable::new(decls),
        layout: stack_layout(&names(locals), &cfg),
        mangling,
    }
}

#[test]
fn sizes_of_types() {
    let decls = vec![
        ("pair".to_string(), pair()),
        ("alias".to_string(), Ty::Namedt("pair".to_string())),
    ];
    let table = TypeTable::new(&decls);
    assert_eq!(size_of(&table, &Ty::Void), 0);
    assert_eq!(size_of(&table, &Ty::I8), 0);
    assert_eq!(size_of(&table, &Ty::I1), 8);
    assert_eq!(size_of(&table, &Ty::Fun(vec![Ty::I64], Box::new(Ty::I64))), 0);
    assert_eq!(size_of(&table, &pair()), 16);
    assert_eq!(size_of(&table, &triple()), 24);
    assert_eq!(size_of(&table, &Ty::Namedt("alias".to_string())), 16);
    assert_eq!(size_of(&table, &Ty::Namedt("missing".to_string())), 0);
    assert_eq!(size_of(&table, &Ty::Array(3, Box::new(Ty::Namedt("pair".to_string())))), 48);
    assert_eq!(size_of(&table, &Ty::Array(0, Box::new(Ty::I64))), 0);
    assert_eq!(size_of(&table, &Ty::Struct(vec![])), 0);
}

#[test]
fn a_later_declaration_of_a_type_counts() {
    let decls = vec![("t".to_string(), Ty::I64), ("t".to_string(), pair())];
    let table = TypeTable::new(&decls);
    assert_eq!(size_of(&table, &Ty::Namedt("t".to_string())), 16);
    assert_eq!(table.get("t"), Some(&pair()));
    assert_eq!(table.get("u"), None);
}

#[test]
fn a_recursive_type_behind_a_pointer_has_a_size() {
    let node = Ty::Struct(vec![Ty::I64, Ty::Ptr(Box::new(Ty::Namedt("node".to_string())))]);
    let decls = vec![("node".to_string(), node)];
    let table = TypeTable::new(&decls);
    assert_eq!(size_of(&table, &Ty::Namedt("node".to_string())), 16);
}

#[test]
fn names_resolve_to_what_they_stand_for() {
    let decls = vec![
        ("pair".to_string(), pair()),
        ("alias".to_string(), Ty::Namedt("pair".to_string())),
    ];
    let table = TypeTable::new(&decls);
    let alias = Ty::Namedt("alias".to_string());
    let missing = Ty::Namedt("missing".to_string());
    assert_eq!(resolve_ty(&table, &alias), &pair());
    assert_eq!(resolve_ty(&table, &missing), &missing);
    assert_eq!(resolve_ty(&table, &Ty::I64), &Ty::I64);
}

#[test]
fn powers_of_two_and_logarithms() {
    assert!(!power_of_two(0));
    assert!(power_of_two(16));
    assert!(!power_of_two(12));
    assert!(!power_of_two(24));
    assert!(power_of_two(1 << 40));
    assert!(!power_of_two((1 << 40) + 1));
    assert_eq!(floor_log2(0), 0);
    assert_eq!(floor_log2(3), 1);
    assert_eq!(floor_log2(16), 4);
    assert_eq!(floor_log2(17), 4);
    assert_eq!(floor_log2(1 << 40), 40);
}

#[test]
fn labels_are_mangled_and_joined() {
    assert_eq!(mangle(Mangling::Plain, "main"), "main");
    assert_eq!(mangle(Mangling::Underscore, "main"), "_main");
    assert_eq!(mangle(Mangling::Underscore, ""), "_");
    assert_eq!(mk_lbl("f", &"then".to_string()), "f.then");
    assert_eq!(mk_lbl("_f", &"".to_string()), "_f.");
}

#[test]
fn arguments_arrive_in_registers_then_on_the_stack() {
    let got: Vec<String> = (0..9).map(|n| arg_loc(n).to_string()).collect();
    assert_eq!(
        got,
        vec!["%rdi", "%rsi", "%rdx", "%rcx", "%r8", "%r9", "16(%rbp)", "24(%rbp)", "32(%rbp)"]
    );
}

#[test]
fn slots_go_down_from_the_frame_base_in_binding_order() {
    let entry = Block::new(
        vec![("x".to_string(), Insn::Alloca(Ty::I64))],
        ("t".to_string(), Terminator::Br("l".to_string())),
    );
    let later = Block::new(
        vec![
            ("y".to_string(), Insn::Alloca(Ty::I64)),
            ("z".to_string(), Insn::Alloca(Ty::I64)),
        ],
        ("t".to_string(), Terminator::Ret(Ty::Void, None)),
    );
    let cfg = (entry, vec![("l".to_string(), later)]);
    let layout = stack_layout(&names(&["a", "b"]), &cfg);
    assert_eq!(layout.len(), 5);
    assert_eq!(layout.get("a"), Some(&-8));
    assert_eq!(layout.get("b"), Some(&-16));
    assert_eq!(layout.get("x"), Some(&-24));
    assert_eq!(layout.get("y"), Some(&-32));
    assert_eq!(layout.get("z"), Some(&-40));
    assert_eq!(layout.get("w"), None);
}

#[test]
fn a_name_bound_twice_keeps_its_later_slot() {
    let cfg = (empty_block(), vec![]);
    let layout = stack_layout(&names(&["a", "b", "a"]), &cfg);
    assert_eq!(layout.len(), 2);
    assert_eq!(layout.get("a"), Some(&-24));
    assert_eq!(layout.get("b"), Some(&-16));
}

#[test]
fn operands_are_loaded_by_kind() {
    let decls = vec![];
    let ctxt = ctxt_with(&decls, &["x", "y"], Mangling::Plain);
    let rax = || dclang::x86::Operand::Reg(Reg::Rax);
    assert_eq!(compile_operand(&ctxt, rax(), &Operand::Null).to_string(), "\tmovq\t$0, %rax");
    assert_eq!(compile_operand(&ctxt, rax(), &Operand::Const(-7)).to_string(), "\tmovq\t$-7, %rax");
    assert_eq!(
        compile_operand(&ctxt, rax(), &Operand::Gid("g".to_string())).to_string(),
        "\tleaq\tg(%rip), %rax"
    );
    assert_eq!(
        compile_operand(&ctxt, rax(), &Operand::Id("y".to_string())).to_string(),
        "\tmovq\t-16(%rbp), %rax"
    );
    let under = ctxt_with(&decls, &[], Mangling::Underscore);
    assert_eq!(
        compile_operand(
            &under,
            dclang::x86::Operand::Reg(Reg::R11),
            &Operand::Gid("g".to_string())
        )
        .to_string(),
        "\tleaq\t_g(%rip), %r11"
    );
}

#[test]
fn the_second_field_of_a_pair_lies_eight_bytes_in() {
    let decls = vec![];
    let ctxt = ctxt_with(&decls, &["p"], Mangling::Plain);
    let base_ty = Ty::Ptr(Box::new(pair()));
    let path = vec![Operand::Const(0), Operand::Const(1)];
    let code = compile_gep(&ctxt, &base_ty, &Operand::Id("p".to_string()), &path);
    assert_eq!(lines(&code), vec!["\tmovq\t-8(%rbp), %rax", "\taddq\t$8, %rax"]);
}

#[test]
fn the_second_field_lies_eight_bytes_in_wherever_the_pair_stands() {
    let decls = vec![("pair".to_string(), pair())];
    let ctxt = ctxt_with(&decls, &["p"], Mangling::Plain);
    let named = Ty::Namedt("pair".to_string());
    let inner = Ty::Array(4, Box::new(named));
    let outer = Ty::Struct(vec![Ty::I64, inner]);
    let base_ty = Ty::Ptr(Box::new(Ty::Array(2, Box::new(outer))));
    let base = Operand::Id("p".to_string());

    let before = vec![Operand::Const(0), Operand::Const(1), Operand::Const(1), Operand::Const(2)];
    let mut after = before.clone();
    after.push(Operand::Const(1));

    let shorter = lines(&compile_gep(&ctxt, &base_ty, &base, &before));
    let longer = lines(&compile_gep(&ctxt, &base_ty, &base, &after));
    assert_eq!(
        shorter,
        vec![
            "\tmovq\t-8(%rbp), %rax",
            "\taddq\t$72, %rax",
            "\taddq\t$8, %rax",
            "\taddq\t$32, %rax",
        ]
    );
    let mut expected = shorter.clone();
    expected.push("\taddq\t$8, %rax".to_string());
    assert_eq!(longer, expected);
}

#[test]
fn the_first_field_adds_nothing() {
    let decls = vec![];
    let ctxt = ctxt_with(&decls, &["p"], Mangling::Plain);
    let base_ty = Ty::Ptr(Box::new(pair()));
    let path = vec![Operand::Const(3), Operand::Const(0)];
    let code = compile_gep(&ctxt, &base_ty, &Operand::Id("p".to_string()), &path);
    assert_eq!(lines(&code), vec!["\tmovq\t-8(%rbp), %rax", "\taddq\t$48, %rax"]);
}

#[test]
fn an_address_without_a_path_is_the_base() {
    let decls = vec![];
    let ctxt = ctxt_with(&decls, &[], Mangling::Plain);
    let base_ty = Ty::Ptr(Box::new(Ty::I64));
    let code = compile_gep(&ctxt, &base_ty, &Operand::Gid("g".to_string()), &[]);
    assert_eq!(lines(&code), vec!["\tleaq\tg(%rip), %rax"]);
}

#[test]
fn an_index_into_elements_of_sixteen_bytes_is_shifted() {
    let decls = vec![];
    let ctxt = ctxt_with(&decls, &["p", "i"], Mangling::Plain);
    let base_ty = Ty::Ptr(Box::new(Ty::Array(4, Box::new(pair()))));
    let path = vec![Operand::Const(0), Operand::Id("i".to_string())];
    let code = compile_gep(&ctxt, &base_ty, &Operand::Id("p".to_string()), &path);
    assert_eq!(
        lines(&code),
        vec![
            "\tmovq\t-8(%rbp), %rax",
            "\tmovq\t-16(%rbp), %r11",
            "\tshlq\t$4, %r11",
            "\taddq\t%r11, %rax",
        ]
    );
}

#[test]
fn an_index_into_elements_of_twenty_four_bytes_is_multiplied() {
    let decls = vec![];
    let ctxt = ctxt_with(&decls, &["p", "i"], Mangling::Plain);
    let base_ty = Ty::Ptr(Box::new(triple()));
    let path = vec![Operand::Id("i".to_string())];
    let code = compile_gep(&ctxt, &base_ty, &Operand::Id("p".to_string()), &path);
    assert_eq!(
        lines(&code),
        vec![
            "\tmovq\t-8(%rbp), %rax",
            "\tmovq\t-16(%rbp), %r11",
            "\timulq\t$24, %r11",
            "\taddq\t%r11, %rax",
        ]
    );
}

#[test]
fn an_index_into_elements_without_size_adds_nothing() {
    let decls = vec![];
    let ctxt = ctxt_with(&decls, &["p", "i"], Mangling::Plain);
    let base_ty = Ty::Ptr(Box::new(Ty::I8));
    let path = vec![Operand::Id("i".to_string())];
    let code = compile_gep(&ctxt, &base_ty, &Operand::Id("p".to_string()), &path);
    assert_eq!(lines(&code), vec!["\tmovq\t-8(%rbp), %rax", "\tmovq\t-16(%rbp), %r11"]);
}

#[test]
fn arithmetic_goes_through_two_registers() {
    let decls = vec![];
    let ctxt = ctxt_with(&decls, &["a", "b", "c"], Mangling::Plain);
    let a = || Operand::Id("a".to_string());
    let b = || Operand::Id("b".to_string());
    let c = "c".to_string();
    let cases = vec![
        (Bop::Add, "addq"),
        (Bop::Sub, "subq"),
        (Bop::Mul, "imulq"),
        (Bop::And, "andq"),
        (Bop::Or, "orq"),
        (Bop::Xor, "xorq"),
    ];
    for (bop, name) in cases {
        let code = compile_insn(&ctxt, &c, &Insn::Binop(bop, Ty::I64, a(), b()));
        assert_eq!(
            lines(&code),
            vec![
                "\tmovq\t-8(%rbp), %rax".to_string(),
                "\tmovq\t-16(%rbp), %rbx".to_string(),
                format!("\t{}\t%rbx, %rax", name),
                "\tmovq\t%rax, -24(%rbp)".to_string(),
            ]
        );
    }
}

#[test]
fn a_shift_takes_its_count_from_rcx() {
    let decls = vec![];
    let ctxt = ctxt_with(&decls, &["a", "c"], Mangling::Plain);
    let c = "c".to_string();
    let cases = vec![(Bop::Shl, "shlq"), (Bop::Lshr, "shrq"), (Bop::Ashr, "sarq")];
    for (bop, name) in cases {
        let insn = Insn::Binop(bop, Ty::I64, Operand::Id("a".to_string()), Operand::Const(3));
        let code = compile_insn(&ctxt, &c, &insn);
        assert_eq!(
            lines(&code),
            vec![
                "\tmovq\t-8(%rbp), %rax".to_string(),
                "\tmovq\t$3, %rbx".to_string(),
                "\tmovq\t%rbx, %rcx".to_string(),
                format!("\t{}\t%rcx, %rax", name),
                "\tmovq\t%rax, -16(%rbp)".to_string(),
            ]
        );
    }
}

#[test]
fn memory_instructions_go_through_rax() {
    let decls = vec![];
    let ctxt = ctxt_with(&decls, &["p", "v", "r"], Mangling::Plain);
    let r = "r".to_string();
    let p = || Operand::Id("p".to_string());

    let alloca = compile_insn(&ctxt, &r, &Insn::Alloca(pair()));
    assert_eq!(lines(&alloca), vec!["\tsubq\t$16, %rsp", "\tmovq\t%rsp, -24(%rbp)"]);

    let load = compile_insn(&ctxt, &r, &Insn::Load(Ty::I64, p()));
    assert_eq!(
        lines(&load),
        vec!["\tmovq\t-8(%rbp), %rax", "\tmovq\t(%rax), %rbx", "\tmovq\t%rbx, -24(%rbp)"]
    );

    let store = compile_insn(&ctxt, &r, &Insn::Store(Ty::I64, Operand::Id("v".to_string()), p()));
    assert_eq!(
        lines(&store),
        vec!["\tmovq\t-8(%rbp), %rax", "\tmovq\t-16(%rbp), %rbx", "\tmovq\t%rbx, (%rax)"]
    );

    let cast = compile_insn(&ctxt, &r, &Insn::Bitcast(Ty::I64, p(), Ty::I1));
    assert_eq!(lines(&cast), vec!["\tmovq\t-8(%rbp), %rax", "\tmovq\t%rax, -24(%rbp)"]);

    let gep = Insn::Gep(Ty::Ptr(Box::new(pair())), p(), vec![Operand::Const(1)]);
    assert_eq!(
        lines(&compile_insn(&ctxt, &r, &gep)),
        vec!["\tmovq\t-8(%rbp), %rax", "\taddq\t$16, %rax", "\tmovq\t%rax, -24(%rbp)"]
    );
}

#[test]
fn a_comparison_clears_its_slot_compares_and_sets() {
    let decls = vec![];
    let ctxt = ctxt_with(&decls, &["a", "c"], Mangling::Plain);
    let c = "c".to_string();
    let cases = vec![
        (Cnd::Eq, "sete"),
        (Cnd::Ne, "setne"),
        (Cnd::Slt, "setl"),
        (Cnd::Sle, "setle"),
        (Cnd::Sgt, "setg"),
        (Cnd::Sge, "setge"),
    ];
    for (cnd, name) in cases {
        let insn = Insn::Icmp(cnd, Ty::I64, Operand::Id("a".to_string()), Operand::Const(3));
        assert_eq!(
            lines(&compile_insn(&ctxt, &c, &insn)),
            vec![
                "\tmovq\t-8(%rbp), %rax".to_string(),
                "\tmovq\t$3, %rbx".to_string(),
                "\tmovq\t$0, -16(%rbp)".to_string(),
                "\tcmpq\t%rbx, %rax".to_string(),
                format!("\t{}\t-16(%rbp)", name),
            ]
        );
    }
}

#[test]
fn a_call_hands_six_arguments_over_in_registers_and_pushes_the_rest() {
    let decls = vec![];
    let ctxt = ctxt_with(&decls, &["r"], Mangling::Underscore);
    let r = "r".to_string();
    let args: Vec<(Ty, Operand)> = (1..=8).map(|i| (Ty::I64, Operand::Const(i))).collect();
    let insn = Insn::Call(Ty::I64, Operand::Gid("g".to_string()), args);
    assert_eq!(
        lines(&compile_insn(&ctxt, &r, &insn)),
        vec![
            "\tmovq\t$1, %rdi",
            "\tmovq\t$2, %rsi",
            "\tmovq\t$3, %rdx",
            "\tmovq\t$4, %rcx",
            "\tmovq\t$5, %r8",
            "\tmovq\t$6, %r9",
            "\tmovq\t$7, %rax",
            "\tpushq\t%rax",
            "\tmovq\t$8, %rax",
            "\tpushq\t%rax",
            "\tcallq\t$_g",
            "\tmovq\t%rax, -8(%rbp)",
        ]
    );
}

#[test]
fn a_call_through_a_value_goes_through_rax_and_void_keeps_nothing() {
    let decls = vec![];
    let ctxt = ctxt_with(&decls, &["f", "r"], Mangling::Plain);
    let r = "r".to_string();
    let insn = Insn::Call(Ty::Void, Operand::Id("f".to_string()), vec![]);
    assert_eq!(
        lines(&compile_insn(&ctxt, &r, &insn)),
        vec!["\tmovq\t-8(%rbp), %rax", "\tcallq\t%rax"]
    );
}

#[test]
fn terminators_leave_or_jump() {
    let decls = vec![];
    let ctxt = ctxt_with(&decls, &["c"], Mangling::Plain);
    let leave = vec!["\tmovq\t%rbp, %rsp", "\tpopq\t%rbp", "\tretq\t"];

    let void = compile_terminator("f", &ctxt, &Terminator::Ret(Ty::Void, None));
    assert_eq!(lines(&void), leave);

    let void_with_value =
        compile_terminator("f", &ctxt, &Terminator::Ret(Ty::Void, Some(Operand::Const(1))));
    assert_eq!(lines(&void_with_value), leave);

    let value = compile_terminator("f", &ctxt, &Terminator::Ret(Ty::I64, Some(Operand::Const(1))));
    let mut expected = vec!["\tmovq\t$1, %rax"];
    expected.extend(leave.iter());
    assert_eq!(lines(&value), expected);

    let jump = compile_terminator("f", &ctxt, &Terminator::Br("next".to_string()));
    assert_eq!(lines(&jump), vec!["\tjmp\t$f.next"]);

    let branch = Terminator::Cbr(Operand::Id("c".to_string()), "yes".to_string(), "no".to_string());
    assert_eq!(
        lines(&compile_terminator("f", &ctxt, &branch)),
        vec!["\tmovq\t-8(%rbp), %rax", "\tcmpq\t$0, %rax", "\tje\t$f.no", "\tjmp\t$f.yes"]
    );
}

#[test]
fn a_block_is_its_instructions_then_its_terminator() {
    let decls = vec![];
    let ctxt = ctxt_with(&decls, &["a", "b"], Mangling::Plain);
    let blk = Block::new(
        vec![(
            "b".to_string(),
            Insn::Bitcast(Ty::I64, Operand::Id("a".to_string()), Ty::I64),
        )],
        ("t".to_string(), Terminator::Br("out".to_string())),
    );
    let expected =
        vec!["\tmovq\t-8(%rbp), %rax", "\tmovq\t%rax, -16(%rbp)", "\tjmp\t$f.out"];
    assert_eq!(lines(&compile_block("f", &ctxt, &blk)), expected);

    let elem = compile_lbl_block("f", &"loop".to_string(), &ctxt, &blk);
    assert_eq!(elem.lbl, "f.loop");
    assert!(!elem.global);
    assert_eq!(body(&elem), expected);
}

fn add_function() -> Fdecl {
    let entry = Block::new(
        vec![(
            "c".to_string(),
            Insn::Binop(
                Bop::Add,
                Ty::I64,
                Operand::Id("a".to_string()),
                Operand::Id("b".to_string()),
            ),
        )],
        ("t".to_string(), Terminator::Br("done".to_string())),
    );
    let done = Block::new(
        vec![],
        ("t".to_string(), Terminator::Ret(Ty::I64, Some(Operand::Id("c".to_string())))),
    );
    Fdecl::new(
        (vec![Ty::I64, Ty::I64], Ty::I64),
        names(&["a", "b"]),
        (entry, vec![("done".to_string(), done)]),
    )
}

#[test]
fn a_function_is_prologue_entry_block_and_labelled_blocks() {
    let decls = vec![];
    let f = add_function();
    let elems = compile_fdecl(&decls, "add", &f, Mangling::Underscore);
    assert_eq!(elems.len(), 2);

    assert_eq!(elems[0].lbl, "_add");
    assert!(elems[0].global);
    assert_eq!(
        body(&elems[0]),
        vec![
            "\tpushq\t%rbp",
            "\tmovq\t%rsp, %rbp",
            "\tsubq\t$24, %rsp",
            "\tmovq\t%rdi, %rax",
            "\tmovq\t%rax, -8(%rbp)",
            "\tmovq\t%rsi, %rax",
            "\tmovq\t%rax, -16(%rbp)",
            "\tmovq\t-8(%rbp), %rax",
            "\tmovq\t-16(%rbp), %rbx",
            "\taddq\t%rbx, %rax",
            "\tmovq\t%rax, -24(%rbp)",
            "\tjmp\t$_add.done",
        ]
    );

    assert_eq!(elems[1].lbl, "_add.done");
    assert!(!elems[1].global);
    assert_eq!(
        body(&elems[1]),
        vec!["\tmovq\t-24(%rbp), %rax", "\tmovq\t%rbp, %rsp", "\tpopq\t%rbp", "\tretq\t"]
    );
}

#[test]
fn the_seventh_parameter_comes_from_the_callers_frame() {
    let decls = vec![];
    let params = names(&["a", "b", "c", "d", "e", "f", "g"]);
    let f = Fdecl::new((vec![], Ty::Void), params, (empty_block(), vec![]));
    let elems = compile_fdecl(&decls, "many", &f, Mangling::Plain);
    let code = body(&elems[0]);
    assert_eq!(code[2], "\tsubq\t$56, %rsp");
    assert_eq!(code[15], "\tmovq\t16(%rbp), %rax");
    assert_eq!(code[16], "\tmovq\t%rax, -56(%rbp)");
    assert_eq!(code.len(), 3 + 14 + 3);
}

#[test]
fn initial_values_are_flattened() {
    let nested = Ginit::GStruct(vec![
        (Ty::I64, Ginit::GInt(7)),
        (
            Ty::Array(2, Box::new(Ty::I64)),
            Ginit::GArray(vec![(Ty::I64, Ginit::GNull), (Ty::I64, Ginit::GGid("g".to_string()))]),
        ),
        (
            Ty::Ptr(Box::new(Ty::I8)),
            Ginit::GBitcast(
                Ty::Ptr(Box::new(Ty::I64)),
                Box::new(Ginit::GString("hi".to_string())),
                Ty::Ptr(Box::new(Ty::I8)),
            ),
        ),
    ]);
    let items: Vec<String> =
        compile_ginit(&nested, Mangling::Underscore).iter().map(|d| d.to_string()).collect();
    assert_eq!(
        items,
        vec!["\t.quad\t7", "\t.quad\t0", "\t.quad\t_g", "\t.asciz\t\"hi\""]
    );
    assert!(compile_ginit(&Ginit::GArray(vec![]), Mangling::Plain).is_empty());

    let elem = compile_gdecl("x", &(Ty::I64, Ginit::GInt(-1)), Mangling::Underscore);
    assert_eq!(elem.lbl, "_x");
    assert!(elem.global);
    assert!(matches!(&elem.body, Asm::Data(items) if matches!(items[..], [Data::Quad(Imm::Lit(-1))])));
}

#[test]
fn a_program_is_its_globals_then_its_functions() {
    let mut prog = Prog::new();
    prog.gdecls.push(("x".to_string(), (Ty::I64, Ginit::GInt(1))));
    prog.gdecls.push(("y".to_string(), (Ty::I64, Ginit::GInt(2))));
    prog.fdecls.push(("add".to_string(), add_function()));
    let out = compile_prog(&prog, Mangling::Plain);
    let labels: Vec<&str> = out.0.iter().map(|e| e.lbl.as_str()).collect();
    assert_eq!(labels, vec!["x", "y", "add", "add.done"]);
}

#[test]
fn a_function_named_program_gets_an_entry_block() {
    let mut prog = Prog::new();
    let f = Fdecl::new((vec![], Ty::Void), vec![], (empty_block(), vec![]));
    prog.fdecls.push(("program".to_string(), f));
    let out = compile_prog(&prog, Mangling::Underscore);
    let labels: Vec<&str> = out.0.iter().map(|e| e.lbl.as_str()).collect();
    assert_eq!(labels, vec!["_program", "_main"]);
    assert!(out.0[1].global);
    assert_eq!(body(&out.0[1]), vec!["\tcallq\t$_program", "\tretq\t"]);
}

#[test]
fn the_empty_program_compiles_to_nothing() {
    let out = compile_prog(&Prog::default(), Mangling::Plain);
    assert!(out.0.is_empty());
}
