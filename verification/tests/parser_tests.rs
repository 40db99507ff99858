use dclang::assembler::link::assemble;
use dclang::parser::text::{
    chars_of, find, parse_int, slice, split, split_lines, split_word, starts_with, string_of,
    strip, trim,
};
use dclang::parser::{
    parse_lines, parse_opcode, parse_operand, parse_program, parse_register, ParseError, Reader,
};
use dclang::x86::{Asm, Opcode, Reg};

fn cs(s: &str) -> Vec<char> {
    s.chars().collect()
}

fn strs(v: Vec<Vec<char>>) -> Vec<String> {
    v.iter().map(|l| l.iter().collect()).collect()
}

#[test]
fn texts_and_characters_turn_into_each_other() {
    assert_eq!(chars_of("a\u{e9}z"), vec!['a', '\u{e9}', 'z']);
    assert_eq!(chars_of(""), Vec::<char>::new());
    assert_eq!(string_of(&cs("a\u{e9}z")), "a\u{e9}z");
    assert_eq!(string_of(&vec![]), "");
    assert_eq!(slice(&cs("hello"), 1, 3), cs("el"));
    assert_eq!(slice(&cs("hello"), 2, 2), cs(""));
}

#[test]
fn whitespace_around_a_text_is_trimmed() {
    assert_eq!(trim(&cs("  a b \t\r\n")), cs("a b"));
    assert_eq!(trim(&cs("\u{a0}x\u{3000}")), cs("x"));
    assert_eq!(trim(&cs("   ")), cs(""));
    assert_eq!(trim(&cs("")), cs(""));
    assert_eq!(trim(&cs("x")), cs("x"));
}

#[test]
fn characters_at_the_ends_are_stripped() {
    assert_eq!(strip(&cs("\"\"a\"b\"\""), '"', true, true), cs("a\"b"));
    assert_eq!(strip(&cs("$$5$"), '$', true, false), cs("5$"));
    assert_eq!(strip(&cs("a::"), ':', false, true), cs("a"));
    assert_eq!(strip(&cs(":::"), ':', true, true), cs(""));
    assert_eq!(strip(&cs("abc"), 'a', false, false), cs("abc"));
}

#[test]
fn prefixes_and_places_are_found() {
    assert!(starts_with(&cs(".text x"), ".text"));
    assert!(!starts_with(&cs(".tex"), ".text"));
    assert!(starts_with(&cs("abc"), ""));
    assert!(!starts_with(&cs("xabc"), "abc"));
    assert_eq!(find(&cs("a.quad.quad"), 0, &cs(".quad")), Some(1));
    assert_eq!(find(&cs("a.quad.quad"), 2, &cs(".quad")), Some(4));
    assert_eq!(find(&cs("a.quad.quad"), 7, &cs(".quad")), None);
    assert_eq!(find(&cs("abc"), 1, &cs("")), Some(0));
    assert_eq!(find(&cs("abc"), 3, &cs("")), Some(0));
    assert_eq!(find(&cs(""), 0, &cs("x")), None);
}

#[test]
fn lines_end_with_a_line_feed() {
    assert_eq!(strs(split_lines(&cs("a\nb\r\nc"))), vec!["a", "b", "c"]);
    assert_eq!(strs(split_lines(&cs("a\n"))), vec!["a"]);
    assert_eq!(strs(split_lines(&cs("a\n\n"))), vec!["a", ""]);
    assert_eq!(strs(split_lines(&cs("\n"))), vec![""]);
    assert_eq!(strs(split_lines(&cs(""))), Vec::<String>::new());
    assert_eq!(strs(split_lines(&cs("a\rb\r"))), vec!["a\rb\r"]);
    assert_eq!(strs(split_lines(&cs("\r\n\r\r\n"))), vec!["", "\r"]);
    for text in ["a\nb\r\nc", "a\n\n", "", "x\r", "\r\n\r\r\nq"] {
        let expected: Vec<String> = text.lines().map(|l| l.to_string()).collect();
        assert_eq!(strs(split_lines(&cs(text))), expected);
    }
}

#[test]
fn pieces_lie_between_commas() {
    assert_eq!(strs(split(&cs("a,b,,c"), ',')), vec!["a", "b", "", "c"]);
    assert_eq!(strs(split(&cs("a,"), ',')), vec!["a", ""]);
    assert_eq!(strs(split(&cs(","), ',')), vec!["", ""]);
    assert_eq!(strs(split(&cs(""), ',')), vec![""]);
    assert_eq!(strs(split(&cs("abc"), ',')), vec!["abc"]);
}

#[test]
fn the_first_word_ends_at_whitespace() {
    let (word, rest) = split_word(&cs("movq   $1, %rax"));
    assert_eq!((word, rest), (cs("movq"), cs("$1, %rax")));
    let (word, rest) = split_word(&cs("retq"));
    assert_eq!((word, rest), (cs("retq"), cs("")));
    let (word, rest) = split_word(&cs(" x"));
    assert_eq!((word, rest), (cs(""), cs("x")));
    let (word, rest) = split_word(&cs("a\u{2003}b c"));
    assert_eq!((word, rest), (cs("a"), cs("b c")));
}

#[test]
fn numbers_are_read_in_decimal() {
    assert_eq!(parse_int(&cs("0")), Some(0));
    assert_eq!(parse_int(&cs("42")), Some(42));
    assert_eq!(parse_int(&cs("+42")), Some(42));
    assert_eq!(parse_int(&cs("-42")), Some(-42));
    assert_eq!(parse_int(&cs("-0")), Some(0));
    assert_eq!(parse_int(&cs("0000000000000000000000007")), Some(7));
    assert_eq!(parse_int(&cs("9223372036854775807")), Some(i64::MAX));
    assert_eq!(parse_int(&cs("-9223372036854775808")), Some(i64::MIN));
    assert_eq!(parse_int(&cs("9223372036854775808")), None);
    assert_eq!(parse_int(&cs("-9223372036854775809")), None);
    assert_eq!(parse_int(&cs("99999999999999999999999999")), None);
    assert_eq!(parse_int(&cs("")), None);
    assert_eq!(parse_int(&cs("-")), None);
    assert_eq!(parse_int(&cs("+")), None);
    assert_eq!(parse_int(&cs("--1")), None);
    assert_eq!(parse_int(&cs(" 1")), None);
    assert_eq!(parse_int(&cs("1 ")), None);
    assert_eq!(parse_int(&cs("12a")), None);
    assert_eq!(parse_int(&cs("\u{661}")), None);
    for text in ["17", "-5", "+0", "", "x", "9223372036854775808", "1_000", "0x10"] {
        assert_eq!(parse_int(&cs(text)), text.parse::<i64>().ok());
    }
}

#[test]
fn three_operations_are_known() {
    assert!(matches!(parse_opcode("movq"), Ok(Opcode::Movq)));
    assert!(matches!(parse_opcode("retq"), Ok(Opcode::Retq)));
    assert!(matches!(parse_opcode("jmp"), Ok(Opcode::Jmp)));
    assert!(matches!(parse_opcode("addq"), Err(ParseError::UnknownOpcode(s)) if s == "addq"));
    assert!(matches!(parse_opcode("MOVQ"), Err(ParseError::UnknownOpcode(s)) if s == "MOVQ"));
    assert!(matches!(parse_opcode(""), Err(ParseError::UnknownOpcode(s)) if s.is_empty()));
}

#[test]
fn four_registers_are_known() {
    assert!(matches!(parse_register("%rax"), Ok(Reg::Rax)));
    assert!(matches!(parse_register("%rbx"), Ok(Reg::Rbx)));
    assert!(matches!(parse_register("%rcx"), Ok(Reg::Rcx)));
    assert!(matches!(parse_register("rdx"), Ok(Reg::Rdx)));
    assert!(matches!(parse_register("%%rax"), Ok(Reg::Rax)));
    assert!(matches!(parse_register("%rsp"), Err(ParseError::UnknownRegister(s)) if s == "%rsp"));
    assert!(matches!(parse_register("%"), Err(ParseError::UnknownRegister(s)) if s == "%"));
}

#[test]
fn operands_are_numbers_registers_or_labels() {
    assert_eq!(parse_operand("$42").unwrap().to_string(), "$42");
    assert_eq!(parse_operand("$-7").unwrap().to_string(), "$-7");
    assert_eq!(parse_operand("$$5").unwrap().to_string(), "$5");
    assert_eq!(parse_operand("%rcx").unwrap().to_string(), "%rcx");
    assert_eq!(parse_operand("loop").unwrap().to_string(), "$loop");
    assert_eq!(parse_operand("").unwrap().to_string(), "$");
    assert_eq!(parse_operand("42").unwrap().to_string(), "$42");
    assert!(matches!(parse_operand("$x"), Err(ParseError::BadNumber(s)) if s == "x"));
    assert!(matches!(parse_operand("$"), Err(ParseError::BadNumber(s)) if s.is_empty()));
    assert!(matches!(parse_operand("%r8"), Err(ParseError::UnknownRegister(s)) if s == "%r8"));
}

#[test]
fn errors_of_reading_have_messages() {
    assert_eq!(ParseError::UnknownOpcode("x".to_string()).to_string(), "unknown opcode 'x'");
    assert_eq!(ParseError::UnknownRegister("%y".to_string()).to_string(), "unknown register '%y'");
    assert_eq!(ParseError::BadNumber("z".to_string()).to_string(), "not a number 'z'");
}

fn text_of(src: &str) -> String {
    parse_program(src).unwrap().to_string()
}

#[test]
fn a_block_of_code_is_read() {
    let prog = parse_program(".text\nmain:\n  movq $42,%rax\n  jmp main\n  retq\n").unwrap();
    assert_eq!(prog.0.len(), 1);
    assert_eq!(prog.0[0].lbl, "main");
    assert!(prog.0[0].global);
    assert_eq!(
        prog.0[0].body.to_string(),
        "\t.text\n\tmovq\t$42, %rax\n\tjmp\t$main\n\tretq\t\n"
    );
    let exec = assemble(&prog).unwrap();
    assert_eq!(exec.text_seg.len(), 24);
}

#[test]
fn the_code_section_is_read_from_the_start() {
    let prog = parse_program("main:\nretq").unwrap();
    assert_eq!(prog.0.len(), 1);
    assert!(matches!(&prog.0[0].body, Asm::Text(code) if code.len() == 1));
}

#[test]
fn what_stands_behind_the_second_word_does_not_count() {
    let prog = parse_program("main:\n  movq $42, %rax\n").unwrap();
    assert_eq!(prog.0[0].body.to_string(), "\t.text\n\tmovq\t$42, $\n");
    let prog = parse_program("main:\n  jmp  a , b\n").unwrap();
    assert_eq!(prog.0[0].body.to_string(), "\t.text\n\tjmp\t$a\n");
}

#[test]
fn the_name_of_an_operation_may_be_in_capitals() {
    let prog = parse_program("main:\nMOVQ $1,%rax\nRetQ\n").unwrap();
    assert_eq!(prog.0[0].body.to_string(), "\t.text\n\tmovq\t$1, %rax\n\tretq\t\n");
}

#[test]
fn comments_and_empty_lines_say_nothing() {
    let src = "# a comment\n\n   // another\r\n.text\n   \nmain:\n# inside\nretq\n//end";
    assert_eq!(text_of(src), text_of("main:\nretq"));
}

#[test]
fn a_label_loses_all_its_colons() {
    let prog = parse_program("a:::\nretq\n").unwrap();
    assert_eq!(prog.0[0].lbl, "a");
    let prog = parse_program(":\nretq\nb:\nretq\n").unwrap();
    assert_eq!(prog.0.len(), 1);
    assert_eq!(prog.0[0].lbl, "b");
    assert!(matches!(&prog.0[0].body, Asm::Text(code) if code.len() == 2));
}

#[test]
fn a_block_is_complete_when_the_next_label_comes_in_its_section() {
    let src = ".data\nmsg:\n.asciz \"Hi\"\n.quad 99\nend:\n.text\nmain:\nretq\nother:\njmp main\n";
    let prog = parse_program(src).unwrap();
    let labels: Vec<&str> = prog.0.iter().map(|e| e.lbl.as_str()).collect();
    assert_eq!(labels, vec!["msg", "main", "other"]);
    assert_eq!(prog.0[0].body.to_string(), "\t.data\n\t.asciz\t\"Hi\"\n\t.quad\t99\n");
    assert!(prog.0.iter().all(|e| e.global));
}

#[test]
fn what_was_read_in_the_other_section_waits() {
    let src = ".data\nmsg:\n.asciz \"Hi\"\n.text\nmain:\nretq\n";
    let prog = parse_program(src).unwrap();
    let labels: Vec<&str> = prog.0.iter().map(|e| e.lbl.as_str()).collect();
    assert_eq!(labels, vec!["main"]);

    let src = ".text\nmain:\n  movq $42,%rax\n  retq\n\n.data\nmsg: .asciz \"Hello\"\nnum: .quad 99\n";
    let prog = parse_program(src).unwrap();
    assert_eq!(prog.0.len(), 1);
    assert_eq!(prog.0[0].lbl, "main");
    assert_eq!(prog.0[0].body.to_string(), "\t.data\n\t.asciz\t\"Hello\"\n\t.quad\t99\n");
}

#[test]
fn data_lines_are_read_by_their_directive() {
    let src = ".data\nd:\n x .asciz  \"a b\"  .asciz zzz\n.quad -5 .quad 7\n.asciz \"\"q\"\"\nnothing here\n.quad   12  \n";
    let prog = parse_program(src).unwrap();
    assert_eq!(
        prog.0[0].body.to_string(),
        "\t.data\n\t.asciz\t\"a b\"\n\t.quad\t-5\n\t.asciz\t\"q\"\n\t.quad\t12\n"
    );
}

#[test]
fn a_line_without_a_block_is_still_read() {
    assert!(parse_program("retq\n").unwrap().0.is_empty());
    assert!(parse_program("").unwrap().0.is_empty());
    assert!(parse_program("main:\n").unwrap().0.is_empty());
    assert!(matches!(parse_program("bogus\n"), Err(ParseError::UnknownOpcode(s)) if s == "bogus"));
}

#[test]
fn the_first_line_that_cannot_be_read_fails_the_text() {
    let r = parse_program("main:\nretq\naddq $1,%rax\nmovq %r9\n");
    assert!(matches!(r, Err(ParseError::UnknownOpcode(s)) if s == "addq"));
    let r = parse_program("main:\nfoo %zz,$q\n");
    assert!(matches!(r, Err(ParseError::UnknownRegister(s)) if s == "%zz"));
    let r = parse_program("main:\nfoo $q,%zz\n");
    assert!(matches!(r, Err(ParseError::BadNumber(s)) if s == "q"));
    let r = parse_program(".data\nd:\n.quad abc\n");
    assert!(matches!(r, Err(ParseError::BadNumber(s)) if s == "abc"));
    let r = parse_program(".data\nd:\n.quad\n");
    assert!(matches!(r, Err(ParseError::BadNumber(s)) if s.is_empty()));
    let r = parse_program(".asciz \"x\"\n");
    assert!(matches!(r, Err(ParseError::UnknownOpcode(s)) if s == ".asciz"));
}

#[test]
fn a_reader_goes_line_by_line() {
    let mut reader = Reader::new();
    assert!(reader.in_text && reader.label.is_empty());
    reader.read(&cs(" f: ")).unwrap();
    assert_eq!(reader.label, "f");
    reader.read(&cs("retq")).unwrap();
    assert_eq!(reader.code.len(), 1);
    reader.read(&cs(".data")).unwrap();
    assert!(!reader.in_text);
    reader.commit();
    assert!(reader.elems.is_empty());
    reader.read(&cs(".text")).unwrap();
    reader.commit();
    assert_eq!(reader.elems.len(), 1);
    assert!(reader.code.is_empty());
    reader.commit();
    assert_eq!(reader.elems.len(), 1);
    assert!(reader.read(&cs("nop")).is_err());

    let lines = vec![cs("g:"), cs("jmp g")];
    assert_eq!(parse_lines(&lines).unwrap().to_string(), text_of("g:\njmp g"));
}
