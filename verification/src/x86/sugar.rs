//! Short constructors for operands and labelled blocks.

use vstd::prelude::*;
use crate::seqs::views;
use crate::x86::{Asm, AsmView, Data, Elem, ElemView, Imm, ImmView, Ins, Operand, OperandView, Reg};

verus! {

/// The immediate operand that holds the literal `i`.
pub fn lit(i: i32) -> (r: Operand)
    ensures
        r@ == OperandView::Imm(ImmView::Lit(i as i64)),
{
    Operand::Imm(Imm::Lit(i as i64))
}

/// The immediate operand that refers to the label `s`.
pub fn lbl(s: &str) -> (r: Operand)
    ensures
        r@ == OperandView::Imm(ImmView::Lbl(s@)),
{
    Operand::Imm(Imm::Lbl(s.to_owned()))
}

/// The operand that is the register `r`.
pub fn reg(r: Reg) -> (o: Operand)
    ensures
        o@ == OperandView::Reg(r),
{
    Operand::Reg(r)
}

/// An exported data block.
pub fn data(label: &str, ds: Vec<Data>) -> (e: Elem)
    ensures
        e@ == (ElemView { lbl: label@, global: true, body: AsmView::Data(views(ds@)) }),
{
    Elem { lbl: label.to_owned(), global: true, body: Asm::Data(ds) }
}

/// A code block whose label is not exported.
pub fn text(label: &str, is: Vec<Ins>) -> (e: Elem)
    ensures
        e@ == (ElemView { lbl: label@, global: false, body: AsmView::Text(views(is@)) }),
{
    Elem { lbl: label.to_owned(), global: false, body: Asm::Text(is) }
}

/// An exported code block.
pub fn gtext(label: &str, is: Vec<Ins>) -> (e: Elem)
    ensures
        e@ == (ElemView { lbl: label@, global: true, body: AsmView::Text(views(is@)) }),
{
    Elem { lbl: label.to_owned(), global: true, body: Asm::Text(is) }
}

} // verus!
