use dclang::assembler::link::{assemble, build_symbol_table, filter_sections};
use dclang::x86::sugar::{data, gtext, text};
use dclang::x86::{Data, Imm, Ins, Opcode, Operand, Prog, Reg};

#[test]
fn test_simple_program() {
    // main:
    //   movq $42, %rax
    //   retq
    let main_func = gtext(
        "main",
        vec![
            Ins {
                opcode: Opcode::Movq,
                operands: vec![Operand::Imm(Imm::Lit(42)), Operand::Reg(Reg::Rax)],
            },
            Ins {
                opcode: Opcode::Retq,
                operands: vec![],
            },
        ],
    );

    let prog = Prog(vec![main_func]);

    let (ts, ds) = filter_sections(&prog);
    assert_eq!(ts.len(), 1);
    assert_eq!(ds.len(), 0);
    assert_eq!(ts[0].lbl, "main");

    let result = build_symbol_table(&ts, &ds);
    assert!(result.is_ok());
    let (sym_map, text_size, _data_pos, data_size) = result.unwrap();

    assert_eq!(text_size, 16); // 2 instructions * 8 bytes
    assert_eq!(data_size, 0);
    assert!(sym_map.contains_key("main"));
    assert_eq!(*sym_map.get("main").unwrap(), 0x400_000);

    let exec = assemble(&prog);
    assert!(exec.is_ok());
    let exec = exec.unwrap();

    assert_eq!(exec.entry, 0x400_000);
    assert_eq!(exec.text_pos, 0x400_000);
    assert_eq!(exec.text_seg.len(), 16); // 2 instructions * 8 bytes
    assert_eq!(exec.data_seg.len(), 0);
}

#[test]
fn test_program_with_data() {
    // .data
    // hello: .asciz "Hi"
    // num: .quad 100
    //
    // .text
    // main:
    //   movq $0, %rax
    //   retq
    let hello_data = data("hello", vec![Data::Asciz("Hi".to_string())]);

    let num_data = data("num", vec![Data::Quad(Imm::Lit(100))]);

    let main_func = gtext(
        "main",
        vec![
            Ins {
                opcode: Opcode::Movq,
                operands: vec![Operand::Imm(Imm::Lit(0)), Operand::Reg(Reg::Rax)],
            },
            Ins {
                opcode: Opcode::Retq,
                operands: vec![],
            },
        ],
    );

    let prog = Prog(vec![main_func, hello_data, num_data]);

    let (ts, ds) = filter_sections(&prog);
    assert_eq!(ts.len(), 1);
    assert_eq!(ds.len(), 2);

    let result = build_symbol_table(&ts, &ds);
    assert!(result.is_ok());
    let (sym_map, text_size, _data_pos, data_size) = result.unwrap();

    assert_eq!(text_size, 16); // 2 instructions * 8 bytes
    assert_eq!(data_size, 11); // "Hi\0" (3 bytes) + quad (8 bytes)
    assert!(sym_map.contains_key("main"));
    assert!(sym_map.contains_key("hello"));
    assert!(sym_map.contains_key("num"));

    let exec = assemble(&prog);
    assert!(exec.is_ok());
    let exec = exec.unwrap();

    assert_eq!(exec.entry, 0x400_000);
    assert_eq!(exec.text_seg.len(), 16);
    assert_eq!(exec.data_seg.len(), 11);
}

#[test]
fn test_label_resolution() {
    // loop:
    //   jmp loop
    // main:
    //   retq
    let loop_func = text(
        "loop",
        vec![Ins {
            opcode: Opcode::Jmp,
            operands: vec![Operand::Imm(Imm::Lbl("loop".to_string()))],
        }],
    );

    let main_func = gtext(
        "main",
        vec![Ins {
            opcode: Opcode::Retq,
            operands: vec![],
        }],
    );

    let prog = Prog(vec![loop_func, main_func]);

    let exec = assemble(&prog);
    assert!(exec.is_ok());
}

#[test]
fn test_undefined_symbol_error() {
    // main:
    //   jmp undefined_label
    let main_func = gtext(
        "main",
        vec![Ins {
            opcode: Opcode::Jmp,
            operands: vec![Operand::Imm(Imm::Lbl("undefined_label".to_string()))],
        }],
    );

    let prog = Prog(vec![main_func]);

    let exec = assemble(&prog);
    assert!(exec.is_err());
}

#[test]
fn test_redefined_symbol_error() {
    let main1 = gtext("main", vec![]);
    let main2 = gtext("main", vec![]);

    let prog = Prog(vec![main1, main2]);

    let (ts, ds) = filter_sections(&prog);
    let result = build_symbol_table(&ts, &ds);
    assert!(result.is_err());
}

#[test]
fn test_no_main_error() {
    let func = gtext(
        "not_main",
        vec![Ins {
            opcode: Opcode::Retq,
            operands: vec![],
        }],
    );

    let prog = Prog(vec![func]);

    let exec = assemble(&prog);
    assert!(exec.is_err());
}
