//! The text of a program as an assembler reads it.

use vstd::prelude::*;
use crate::seqs::views;
use crate::x86::{
    Asm, AsmView, Cnd, Data, DataView, Elem, ElemView, Imm, ImmView, Ins, InsView, Opcode, Operand,
    OperandView, Prog, Reg,
};

verus! {

broadcast use crate::seqs::group_views;

/// The character of the decimal digit `d`.
pub open spec fn digit(d: int) -> char {
    if d == 0 {
        '0'
    } else if d == 1 {
        '1'
    } else if d == 2 {
        '2'
    } else if d == 3 {
        '3'
    } else if d == 4 {
        '4'
    } else if d == 5 {
        '5'
    } else if d == 6 {
        '6'
    } else if d == 7 {
        '7'
    } else if d == 8 {
        '8'
    } else {
        '9'
    }
}

/// The number `n` written in decimal digits, without a leading zero.
pub open spec fn nat_text(n: nat) -> Seq<char>
    decreases n,
{
    if n < 10 {
        seq![digit(n as int)]
    } else {
        nat_text(n / 10).push(digit((n % 10) as int))
    }
}

/// The number `i` written in decimal digits, with a minus sign before
/// them where it is negative.
pub open spec fn int_text(i: int) -> Seq<char> {
    if i < 0 {
        seq!['-'] + nat_text((-i) as nat)
    } else {
        nat_text(i as nat)
    }
}

/// The decimal digit `d` as a string.
fn digit_str(d: u64) -> (r: &'static str)
    requires
        d < 10,
    ensures
        r@ == seq![digit(d as int)],
{
    proof {
        reveal_strlit("0");
        reveal_strlit("1");
        reveal_strlit("2");
        reveal_strlit("3");
        reveal_strlit("4");
        reveal_strlit("5");
        reveal_strlit("6");
        reveal_strlit("7");
        reveal_strlit("8");
        reveal_strlit("9");
    }
    let r = if d == 0 {
        "0"
    } else if d == 1 {
        "1"
    } else if d == 2 {
        "2"
    } else if d == 3 {
        "3"
    } else if d == 4 {
        "4"
    } else if d == 5 {
        "5"
    } else if d == 6 {
        "6"
    } else if d == 7 {
        "7"
    } else if d == 8 {
        "8"
    } else {
        "9"
    };
    assert(r@ =~= seq![digit(d as int)]);
    r
}

/// The number `n` written in decimal digits.
pub fn nat_to_string(n: u64) -> (r: String)
    ensures
        r@ == nat_text(n as nat),
    decreases n,
{
    if n < 10 {
        digit_str(n).to_owned()
    } else {
        let mut s = nat_to_string(n / 10);
        s.append(digit_str(n % 10));
        assert(s@ =~= nat_text(n as nat));
        s
    }
}

/// The number `i` written in decimal digits.
pub fn int_to_string(i: i64) -> (r: String)
    ensures
        r@ == int_text(i as int),
{
    if i < 0 {
        let magnitude: u64 = ((-(i + 1)) as u64) + 1;
        proof {
            reveal_strlit("-");
        }
        let mut s = "-".to_owned();
        let digits = nat_to_string(magnitude);
        s.append(digits.as_str());
        assert(s@ =~= int_text(i as int));
        s
    } else {
        nat_to_string(i as u64)
    }
}

/// The name of the register `r` with the sign that marks a register.
pub open spec fn reg_text(r: Reg) -> Seq<char> {
    match r {
        Reg::Rip => "%rip"@,
        Reg::Rax => "%rax"@,
        Reg::Rbx => "%rbx"@,
        Reg::Rcx => "%rcx"@,
        Reg::Rdx => "%rdx"@,
        Reg::Rsi => "%rsi"@,
        Reg::Rdi => "%rdi"@,
        Reg::Rbp => "%rbp"@,
        Reg::Rsp => "%rsp"@,
        Reg::R08 => "%r8"@,
        Reg::R09 => "%r9"@,
        Reg::R10 => "%r10"@,
        Reg::R11 => "%r11"@,
        Reg::R12 => "%r12"@,
        Reg::R13 => "%r13"@,
        Reg::R14 => "%r14"@,
        Reg::R15 => "%r15"@,
    }
}

impl Reg {
    /// The text of the register.
    pub fn to_string(&self) -> (r: String)
        ensures
            r@ == reg_text(*self),
    {
        let s = match self {
            Reg::Rip => "%rip",
            Reg::Rax => "%rax",
            Reg::Rbx => "%rbx",
            Reg::Rcx => "%rcx",
            Reg::Rdx => "%rdx",
            Reg::Rsi => "%rsi",
            Reg::Rdi => "%rdi",
            Reg::Rbp => "%rbp",
            Reg::Rsp => "%rsp",
            Reg::R08 => "%r8",
            Reg::R09 => "%r9",
            Reg::R10 => "%r10",
            Reg::R11 => "%r11",
            Reg::R12 => "%r12",
            Reg::R13 => "%r13",
            Reg::R14 => "%r14",
            Reg::R15 => "%r15",
        };
        s.to_owned()
    }
}

/// The text of the immediate `i`: a literal in decimal digits, a label as
/// it is.
pub open spec fn imm_text(i: ImmView) -> Seq<char> {
    match i {
        ImmView::Lit(x) => int_text(x as int),
        ImmView::Lbl(l) => l,
    }
}

impl Imm {
    /// The text of the immediate.
    pub fn to_string(&self) -> (r: String)
        ensures
            r@ == imm_text(self@),
    {
        match self {
            Imm::Lit(i) => int_to_string(*i),
            Imm::Lbl(l) => l.clone(),
        }
    }
}

/// The text of the operand `o`: an immediate value behind a dollar sign, a
/// register by its name, a memory operand as its displacement, then its
/// register in brackets, as far as it has the one and the other.
pub open spec fn operand_text(o: OperandView) -> Seq<char> {
    match o {
        OperandView::Imm(i) => "$"@ + imm_text(i),
        OperandView::Reg(r) => reg_text(r),
        OperandView::Ind1(i) => imm_text(i),
        OperandView::Ind2(r) => "("@ + reg_text(r) + ")"@,
        OperandView::Ind3(i, r) => imm_text(i) + "("@ + reg_text(r) + ")"@,
    }
}

impl Operand {
    /// The text of the operand.
    pub fn to_string(&self) -> (r: String)
        ensures
            r@ == operand_text(self@),
    {
        match self {
            Operand::Imm(i) => {
                let mut s = "$".to_owned();
                s.append(i.to_string().as_str());
                s
            },
            Operand::Reg(r) => r.to_string(),
            Operand::Ind1(i) => i.to_string(),
            Operand::Ind2(r) => {
                let mut s = "(".to_owned();
                s.append(r.to_string().as_str());
                s.append(")");
                s
            },
            Operand::Ind3(i, r) => {
                let mut s = i.to_string();
                s.append("(");
                s.append(r.to_string().as_str());
                s.append(")");
                s
            },
        }
    }
}

/// The letters that name the condition `c` in an operation.
pub open spec fn cnd_text(c: Cnd) -> Seq<char> {
    match c {
        Cnd::Eq => "e"@,
        Cnd::Neq => "ne"@,
        Cnd::Gt => "g"@,
        Cnd::Ge => "ge"@,
        Cnd::Lt => "l"@,
        Cnd::Le => "le"@,
    }
}

impl Cnd {
    /// The text of the condition.
    pub fn to_string(&self) -> (r: String)
        ensures
            r@ == cnd_text(*self),
    {
        let s = match self {
            Cnd::Eq => "e",
            Cnd::Neq => "ne",
            Cnd::Gt => "g",
            Cnd::Ge => "ge",
            Cnd::Lt => "l",
            Cnd::Le => "le",
        };
        s.to_owned()
    }
}

/// The name of the operation `o`; a conditional jump and a conditional
/// set end in the letters of their condition.
pub open spec fn opcode_text(o: Opcode) -> Seq<char> {
    match o {
        Opcode::Movq => "movq"@,
        Opcode::Pushq => "pushq"@,
        Opcode::Popq => "popq"@,
        Opcode::Leaq => "leaq"@,
        Opcode::Incq => "incq"@,
        Opcode::Decq => "decq"@,
        Opcode::Negq => "negq"@,
        Opcode::Notq => "notq"@,
        Opcode::Addq => "addq"@,
        Opcode::Subq => "subq"@,
        Opcode::Imulq => "imulq"@,
        Opcode::Xorq => "xorq"@,
        Opcode::Orq => "orq"@,
        Opcode::Andq => "andq"@,
        Opcode::Shlq => "shlq"@,
        Opcode::Sarq => "sarq"@,
        Opcode::Shrq => "shrq"@,
        Opcode::Jmp => "jmp"@,
        Opcode::J(c) => "j"@ + cnd_text(c),
        Opcode::Cmpq => "cmpq"@,
        Opcode::Setcc(c) => "set"@ + cnd_text(c),
        Opcode::Callq => "callq"@,
        Opcode::Retq => "retq"@,
    }
}

impl Opcode {
    /// The text of the operation.
    pub fn to_string(&self) -> (r: String)
        ensures
            r@ == opcode_text(*self),
    {
        match self {
            Opcode::Movq => "movq".to_owned(),
            Opcode::Pushq => "pushq".to_owned(),
            Opcode::Popq => "popq".to_owned(),
            Opcode::Leaq => "leaq".to_owned(),
            Opcode::Incq => "incq".to_owned(),
            Opcode::Decq => "decq".to_owned(),
            Opcode::Negq => "negq".to_owned(),
            Opcode::Notq => "notq".to_owned(),
            Opcode::Addq => "addq".to_owned(),
            Opcode::Subq => "subq".to_owned(),
            Opcode::Imulq => "imulq".to_owned(),
            Opcode::Xorq => "xorq".to_owned(),
            Opcode::Orq => "orq".to_owned(),
            Opcode::Andq => "andq".to_owned(),
            Opcode::Shlq => "shlq".to_owned(),
            Opcode::Sarq => "sarq".to_owned(),
            Opcode::Shrq => "shrq".to_owned(),
            Opcode::Jmp => "jmp".to_owned(),
            Opcode::J(c) => {
                let mut s = "j".to_owned();
                s.append(c.to_string().as_str());
                s
            },
            Opcode::Cmpq => "cmpq".to_owned(),
            Opcode::Setcc(c) => {
                let mut s = "set".to_owned();
                s.append(c.to_string().as_str());
                s
            },
            Opcode::Callq => "callq".to_owned(),
            Opcode::Retq => "retq".to_owned(),
        }
    }
}

/// The texts of the operands `ops`, a comma and a blank between each two.
pub open spec fn operands_text(ops: Seq<OperandView>) -> Seq<char>
    decreases ops.len(),
{
    if ops.len() == 0 {
        seq![]
    } else if ops.len() == 1 {
        operand_text(ops[0])
    } else {
        operands_text(ops.drop_last()) + ", "@ + operand_text(ops.last())
    }
}

/// The line of the instruction `i`: a tab, the operation, a tab, the
/// operands.
pub open spec fn ins_text(i: InsView) -> Seq<char> {
    "\t"@ + opcode_text(i.opcode) + "\t"@ + operands_text(i.operands)
}

impl Ins {
    /// The text of the instruction.
    pub fn to_string(&self) -> (r: String)
        ensures
            r@ == ins_text(self@),
    {
        let ghost ops = self@.operands;
        let mut args = String::new();
        let mut k: usize = 0;
        assert(ops.take(0) =~= seq![]);
        while k < self.operands.len()
            invariant
                k <= self.operands.len(),
                ops == views(self.operands@),
                args@ == operands_text(ops.take(k as int)),
            decreases self.operands.len() - k,
        {
            assert(ops.take(k as int + 1).drop_last() == ops.take(k as int));
            assert(ops.take(k as int + 1).last() == self.operands@[k as int]@);
            if k > 0 {
                args.append(", ");
            } else {
                assert(ops.take(1)[0] == self.operands@[0]@);
            }
            args.append(self.operands[k].to_string().as_str());
            assert(args@ =~= operands_text(ops.take(k as int + 1)));
            k += 1;
        }
        assert(ops.take(k as int) == ops);
        let mut s = "\t".to_owned();
        s.append(self.opcode.to_string().as_str());
        s.append("\t");
        s.append(args.as_str());
        s
    }
}

/// The string `s` with every character written as `char::escape_default`
/// of the standard library writes it.
pub uninterp spec fn escaped(s: Seq<char>) -> Seq<char>;

/// Calls `str::escape_default` of the standard library and collects what it
/// yields. The contract only gives the result its name: the same string is
/// always escaped in the same way.
#[verifier::external_body]
fn escape_default(s: &str) -> (r: String)
    ensures
        r@ == escaped(s@),
{
    s.escape_default().to_string()
}

/// The line of the data item `d`: a string escaped and in quotes behind
/// its directive, a word behind its directive.
pub open spec fn data_text(d: DataView) -> Seq<char> {
    match d {
        DataView::Asciz(s) => "\t.asciz\t\""@ + escaped(s) + "\""@,
        DataView::Quad(i) => "\t.quad\t"@ + imm_text(i),
    }
}

impl Data {
    /// The text of the data item.
    pub fn to_string(&self) -> (r: String)
        ensures
            r@ == data_text(self@),
    {
        match self {
            Data::Asciz(s) => {
                let mut r = "\t.asciz\t\"".to_owned();
                r.append(escape_default(s.as_str()).as_str());
                r.append("\"");
                r
            },
            Data::Quad(i) => {
                let mut r = "\t.quad\t".to_owned();
                r.append(i.to_string().as_str());
                r
            },
        }
    }
}

/// The lines of the instructions `is`, each ended by a line feed.
pub open spec fn code_text(is: Seq<InsView>) -> Seq<char>
    decreases is.len(),
{
    if is.len() == 0 {
        seq![]
    } else {
        code_text(is.drop_last()) + ins_text(is.last()) + "\n"@
    }
}

/// The lines of the data items `ds`, each ended by a line feed.
pub open spec fn items_text(ds: Seq<DataView>) -> Seq<char>
    decreases ds.len(),
{
    if ds.len() == 0 {
        seq![]
    } else {
        items_text(ds.drop_last()) + data_text(ds.last()) + "\n"@
    }
}

/// The text of the body `a` of a block: the directive of its section on a
/// line of its own, then its lines.
pub open spec fn body_text(a: AsmView) -> Seq<char> {
    match a {
        AsmView::Text(is) => "\t.text\n"@ + code_text(is),
        AsmView::Data(ds) => "\t.data\n"@ + items_text(ds),
    }
}

impl Asm {
    /// The text of the body.
    pub fn to_string(&self) -> (r: String)
        ensures
            r@ == body_text(self@),
    {
        match self {
            Asm::Text(ins) => {
                let ghost is = views(ins@);
                let mut r = "\t.text\n".to_owned();
                let mut i: usize = 0;
                assert(is.take(0) =~= seq![]);
                assert(r@ =~= "\t.text\n"@ + code_text(is.take(0)));
                while i < ins.len()
                    invariant
                        i <= ins.len(),
                        is == views(ins@),
                        r@ == "\t.text\n"@ + code_text(is.take(i as int)),
                    decreases ins.len() - i,
                {
                    assert(is.take(i as int + 1).drop_last() == is.take(i as int));
                    assert(is.take(i as int + 1).last() == ins@[i as int]@);
                    r.append(ins[i].to_string().as_str());
                    r.append("\n");
                    assert(r@ =~= "\t.text\n"@ + code_text(is.take(i as int + 1)));
                    i += 1;
                }
                assert(is.take(i as int) == is);
                r
            },
            Asm::Data(ds) => {
                let ghost items = views(ds@);
                let mut r = "\t.data\n".to_owned();
                let mut i: usize = 0;
                assert(items.take(0) =~= seq![]);
                assert(r@ =~= "\t.data\n"@ + items_text(items.take(0)));
                while i < ds.len()
                    invariant
                        i <= ds.len(),
                        items == views(ds@),
                        r@ == "\t.data\n"@ + items_text(items.take(i as int)),
                    decreases ds.len() - i,
                {
                    assert(items.take(i as int + 1).drop_last() == items.take(i as int));
                    assert(items.take(i as int + 1).last() == ds@[i as int]@);
                    r.append(ds[i].to_string().as_str());
                    r.append("\n");
                    assert(r@ =~= "\t.data\n"@ + items_text(items.take(i as int + 1)));
                    i += 1;
                }
                assert(items.take(i as int) == items);
                r
            },
        }
    }
}

/// The text of the block `e`: the directive of its section, the directive
/// that exports its label where it is exported, its label with a colon,
/// its body, and an empty line.
pub open spec fn elem_text(e: ElemView) -> Seq<char> {
    (if e.body is Text {
        "\t.text"@
    } else {
        "\t.data"@
    }) + "\n"@ + (if e.global {
        "\t.globl\t"@ + e.lbl + "\n"@
    } else {
        seq![]
    }) + e.lbl + ":\n"@ + body_text(e.body) + "\n"@
}

impl Elem {
    /// The text of the block.
    pub fn to_string(&self) -> (r: String)
        ensures
            r@ == elem_text(self@),
    {
        let mut r = match &self.body {
            Asm::Text(_) => "\t.text".to_owned(),
            Asm::Data(_) => "\t.data".to_owned(),
        };
        r.append("\n");
        if self.global {
            r.append("\t.globl\t");
            r.append(self.lbl.as_str());
            r.append("\n");
        }
        r.append(self.lbl.as_str());
        r.append(":\n");
        r.append(self.body.to_string().as_str());
        r.append("\n");
        assert(r@ =~= elem_text(self@));
        r
    }
}

/// The text of the program `p`: its blocks in order, an empty line behind
/// each.
pub open spec fn prog_text(p: Seq<ElemView>) -> Seq<char>
    decreases p.len(),
{
    if p.len() == 0 {
        seq![]
    } else {
        prog_text(p.drop_last()) + elem_text(p.last()) + "\n"@
    }
}

impl Prog {
    /// The text of the program.
    pub fn to_string(&self) -> (r: String)
        ensures
            r@ == prog_text(self@),
    {
        let ghost p = self@;
        let mut r = String::new();
        let mut i: usize = 0;
        assert(p.take(0) =~= seq![]);
        while i < self.0.len()
            invariant
                i <= self.0.len(),
                p == views(self.0@),
                r@ == prog_text(p.take(i as int)),
            decreases self.0.len() - i,
        {
            assert(p.take(i as int + 1).drop_last() == p.take(i as int));
            assert(p.take(i as int + 1).last() == self.0@[i as int]@);
            r.append(self.0[i].to_string().as_str());
            r.append("\n");
            assert(r@ =~= prog_text(p.take(i as int + 1)));
            i += 1;
        }
        assert(p.take(i as int) == p);
        r
    }
}

} // verus!
