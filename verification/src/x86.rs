//! The target machine: registers, operands, instructions, data items and
//! labelled blocks, each with the mathematical value that contracts speak of.

use vstd::prelude::*;
use crate::seqs::{group_views, views};

pub mod sugar;
pub mod render;

verus! {

/// A 64-bit machine word.
pub type Quad = i64;

/// A symbolic name of a code or data block.
pub type Lbl = String;

/// An immediate: a literal word or a reference to a label.
#[derive(Debug)]
pub enum Imm {
    Lit(Quad),
    Lbl(Lbl),
}

/// The value of an [`Imm`].
pub enum ImmView {
    Lit(i64),
    Lbl(Seq<char>),
}

impl View for Imm {
    type V = ImmView;

    open spec fn view(&self) -> ImmView {
        match self {
            Imm::Lit(i) => ImmView::Lit(*i),
            Imm::Lbl(l) => ImmView::Lbl(l@),
        }
    }
}

impl Clone for Imm {
    fn clone(&self) -> (r: Self)
        ensures
            r@ == self@,
    {
        match self {
            Imm::Lit(i) => Imm::Lit(*i),
            Imm::Lbl(l) => Imm::Lbl(l.clone()),
        }
    }
}

/// The registers of the machine; `Rip` is the instruction pointer, used for
/// addressing relative to the running code.
#[derive(Debug, Clone, Copy, PartialEq, Eq, PartialOrd, Structural)]
pub enum Reg {
    Rip,
    Rax,
    Rbx,
    Rcx,
    Rdx,
    Rsi,
    Rdi,
    Rbp,
    Rsp,
    R08,
    R09,
    R10,
    R11,
    R12,
    R13,
    R14,
    R15,
}

/// An operand of an instruction.
#[derive(Debug)]
pub enum Operand {
    /// An immediate value.
    Imm(Imm),
    /// A register.
    Reg(Reg),
    /// The memory at an address given by an immediate.
    Ind1(Imm),
    /// The memory at the address that a register holds.
    Ind2(Reg),
    /// The memory at a register's address displaced by an immediate.
    Ind3(Imm, Reg),
}

/// The value of an [`Operand`].
pub enum OperandView {
    Imm(ImmView),
    Reg(Reg),
    Ind1(ImmView),
    Ind2(Reg),
    Ind3(ImmView, Reg),
}

impl View for Operand {
    type V = OperandView;

    open spec fn view(&self) -> OperandView {
        match self {
            Operand::Imm(i) => OperandView::Imm(i@),
            Operand::Reg(r) => OperandView::Reg(*r),
            Operand::Ind1(i) => OperandView::Ind1(i@),
            Operand::Ind2(r) => OperandView::Ind2(*r),
            Operand::Ind3(i, r) => OperandView::Ind3(i@, *r),
        }
    }
}

impl Clone for Operand {
    fn clone(&self) -> (r: Self)
        ensures
            r@ == self@,
    {
        match self {
            Operand::Imm(i) => Operand::Imm(i.clone()),
            Operand::Reg(r) => Operand::Reg(*r),
            Operand::Ind1(i) => Operand::Ind1(i.clone()),
            Operand::Ind2(r) => Operand::Ind2(*r),
            Operand::Ind3(i, r) => Operand::Ind3(i.clone(), *r),
        }
    }
}

/// A condition code.
#[derive(Debug, Clone, Copy, PartialEq, Eq, Structural)]
pub enum Cnd {
    Eq,
    Neq,
    Gt,
    Ge,
    Lt,
    Le,
}

/// An operation of the machine.
#[derive(Debug, Clone, Copy, PartialEq, Eq, Structural)]
pub enum Opcode {
    Movq,
    Pushq,
    Popq,
    Leaq,
    Incq,
    Decq,
    Negq,
    Notq,
    Addq,
    Subq,
    Imulq,
    Xorq,
    Orq,
    Andq,
    Shlq,
    Sarq,
    Shrq,
    Jmp,
    J(Cnd),
    Cmpq,
    Setcc(Cnd),
    Callq,
    Retq,
}

/// An instruction: an operation and its operands in order.
#[derive(Debug)]
pub struct Ins {
    pub opcode: Opcode,
    pub operands: Vec<Operand>,
}

/// The value of an [`Ins`].
pub struct InsView {
    pub opcode: Opcode,
    pub operands: Seq<OperandView>,
}

impl View for Ins {
    type V = InsView;

    open spec fn view(&self) -> InsView {
        InsView { opcode: self.opcode, operands: views(self.operands@) }
    }
}

/// A copy of `ops`, item by item.
pub fn clone_operands(ops: &Vec<Operand>) -> (r: Vec<Operand>)
    ensures
        views(r@) == views(ops@),
{
    let mut r: Vec<Operand> = Vec::new();
    let mut i: usize = 0;
    while i < ops.len()
        invariant
            i <= ops.len(),
            views(r@) == views(ops@.take(i as int)),
        decreases ops.len() - i,
    {
        broadcast use group_views;

        assert(ops@.take(i as int + 1) == ops@.take(i as int).push(ops@[i as int]));
        r.push(ops[i].clone());
        i += 1;
    }
    assert(ops@.take(i as int) == ops@);
    r
}

impl Clone for Ins {
    fn clone(&self) -> (r: Self)
        ensures
            r@ == self@,
    {
        Ins { opcode: self.opcode, operands: clone_operands(&self.operands) }
    }
}

/// An item of a data block.
#[derive(Debug)]
pub enum Data {
    /// A string, stored with a terminating zero byte.
    Asciz(String),
    /// A machine word.
    Quad(Imm),
}

/// The value of a [`Data`].
pub enum DataView {
    Asciz(Seq<char>),
    Quad(ImmView),
}

impl View for Data {
    type V = DataView;

    open spec fn view(&self) -> DataView {
        match self {
            Data::Asciz(s) => DataView::Asciz(s@),
            Data::Quad(i) => DataView::Quad(i@),
        }
    }
}

impl Clone for Data {
    fn clone(&self) -> (r: Self)
        ensures
            r@ == self@,
    {
        match self {
            Data::Asciz(s) => Data::Asciz(s.clone()),
            Data::Quad(i) => Data::Quad(i.clone()),
        }
    }
}

/// The body of a labelled block: code or data.
#[derive(Debug)]
pub enum Asm {
    Text(Vec<Ins>),
    Data(Vec<Data>),
}

/// The value of an [`Asm`].
pub enum AsmView {
    Text(Seq<InsView>),
    Data(Seq<DataView>),
}

impl View for Asm {
    type V = AsmView;

    open spec fn view(&self) -> AsmView {
        match self {
            Asm::Text(is) => AsmView::Text(views(is@)),
            Asm::Data(ds) => AsmView::Data(views(ds@)),
        }
    }
}

/// A copy of `is`, item by item.
pub fn clone_code(is: &Vec<Ins>) -> (r: Vec<Ins>)
    ensures
        views(r@) == views(is@),
{
    let mut r: Vec<Ins> = Vec::new();
    let mut i: usize = 0;
    while i < is.len()
        invariant
            i <= is.len(),
            views(r@) == views(is@.take(i as int)),
        decreases is.len() - i,
    {
        broadcast use group_views;

        assert(is@.take(i as int + 1) == is@.take(i as int).push(is@[i as int]));
        r.push(is[i].clone());
        i += 1;
    }
    assert(is@.take(i as int) == is@);
    r
}

/// A copy of `ds`, item by item.
pub fn clone_data(ds: &Vec<Data>) -> (r: Vec<Data>)
    ensures
        views(r@) == views(ds@),
{
    let mut r: Vec<Data> = Vec::new();
    let mut i: usize = 0;
    while i < ds.len()
        invariant
            i <= ds.len(),
            views(r@) == views(ds@.take(i as int)),
        decreases ds.len() - i,
    {
        broadcast use group_views;

        assert(ds@.take(i as int + 1) == ds@.take(i as int).push(ds@[i as int]));
        r.push(ds[i].clone());
        i += 1;
    }
    assert(ds@.take(i as int) == ds@);
    r
}

impl Clone for Asm {
    fn clone(&self) -> (r: Self)
        ensures
            r@ == self@,
    {
        match self {
            Asm::Text(is) => Asm::Text(clone_code(is)),
            Asm::Data(ds) => Asm::Data(clone_data(ds)),
        }
    }
}

/// A labelled block of code or data; `global` says whether the label is
/// exported.
#[derive(Debug)]
pub struct Elem {
    pub lbl: Lbl,
    pub global: bool,
    pub body: Asm,
}

/// The value of an [`Elem`].
pub struct ElemView {
    pub lbl: Seq<char>,
    pub global: bool,
    pub body: AsmView,
}

impl View for Elem {
    type V = ElemView;

    open spec fn view(&self) -> ElemView {
        ElemView { lbl: self.lbl@, global: self.global, body: self.body@ }
    }
}

impl Clone for Elem {
    fn clone(&self) -> (r: Self)
        ensures
            r@ == self@,
    {
        Elem { lbl: self.lbl.clone(), global: self.global, body: self.body.clone() }
    }
}

/// A program: labelled blocks in order.
#[derive(Debug)]
pub struct Prog(pub Vec<Elem>);

impl View for Prog {
    type V = Seq<ElemView>;

    open spec fn view(&self) -> Seq<ElemView> {
        views(self.0@)
    }
}

impl Clone for Prog {
    fn clone(&self) -> (r: Self)
        ensures
            r@ == self@,
    {
        let mut r: Vec<Elem> = Vec::new();
        let mut i: usize = 0;
        while i < self.0.len()
            invariant
                i <= self.0.len(),
                views(r@) == views(self.0@.take(i as int)),
            decreases self.0.len() - i,
        {
            broadcast use group_views;

            assert(self.0@.take(i as int + 1) == self.0@.take(i as int).push(self.0@[i as int]));
            r.push(self.0[i].clone());
            i += 1;
        }
        assert(self.0@.take(i as int) == self.0@);
        Prog(r)
    }
}

} // verus!
