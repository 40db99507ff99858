//! Lowering of terminators and blocks.

use vstd::prelude::*;
use crate::seqs::views;
use crate::backend::context::{
    block_label, ins0, ins1, ins2, lbl, lit, mk_ins0, mk_ins1, mk_ins2, mk_lbl, mk_lit, reg, Ctxt,
    CtxtView,
};
use crate::backend::insn::{compile_insn, insn_code, insn_ok};
use crate::backend::lower::{compile_operand, load_operand, operand_known};
use crate::backend::types::acyclic;
use crate::llvm::{Block, Insn, Lbl, Terminator, Ty, Uid};
use crate::x86::sugar::text;
use crate::x86::{AsmView, Cnd, Elem, ElemView, Imm, Ins, InsView, Opcode, Operand, Reg};

verus! {

broadcast use crate::seqs::group_views;

/// The instructions that leave a function: give the frame back, restore the
/// caller's frame base, return.
pub open spec fn epilogue() -> Seq<InsView> {
    seq![
        ins2(Opcode::Movq, reg(Reg::Rbp), reg(Reg::Rsp)),
        ins1(Opcode::Popq, reg(Reg::Rbp)),
        ins0(Opcode::Retq),
    ]
}

/// The terminator `term` can be lowered: a return of a type other than
/// void has a value, and each local that is read has a stack slot.
pub open spec fn terminator_ok(cx: CtxtView, term: Terminator) -> bool {
    match term {
        Terminator::Ret(t, v) => t is Void || (v matches Some(op) && operand_known(cx, op)),
        Terminator::Br(_) => true,
        Terminator::Cbr(c, _, _) => operand_known(cx, c),
    }
}

/// The instructions that `term` lowers to in the function labelled `fname`.
/// A return brings its value, if it has one, into `%rax` and leaves. A
/// branch jumps to the program-wide label of its target. A conditional
/// branch tests its condition against 0, jumps to the second target where
/// they are equal, and to the first otherwise.
pub open spec fn terminator_code(fname: Seq<char>, cx: CtxtView, term: Terminator) -> Seq<
    InsView,
> {
    match term {
        Terminator::Ret(t, v) => if t is Void {
            epilogue()
        } else {
            match v {
                Some(op) => seq![load_operand(cx, Reg::Rax, op)] + epilogue(),
                None => seq![],
            }
        },
        Terminator::Br(l) => seq![ins1(Opcode::Jmp, lbl(block_label(fname, l@)))],
        Terminator::Cbr(c, lbl_true, lbl_false) => seq![
            load_operand(cx, Reg::Rax, c),
            ins2(Opcode::Cmpq, lit(0), reg(Reg::Rax)),
            ins1(Opcode::J(Cnd::Eq), lbl(block_label(fname, lbl_false@))),
            ins1(Opcode::Jmp, lbl(block_label(fname, lbl_true@))),
        ],
    }
}

/// Appends [`epilogue`] to `result`.
fn push_epilogue(result: &mut Vec<Ins>)
    ensures
        views(final(result)@) == views(old(result)@) + epilogue(),
{
    result.push(mk_ins2(Opcode::Movq, Operand::Reg(Reg::Rbp), Operand::Reg(Reg::Rsp)));
    result.push(mk_ins1(Opcode::Popq, Operand::Reg(Reg::Rbp)));
    result.push(mk_ins0(Opcode::Retq));
    assert(views(result@) =~= views(old(result)@) + epilogue());
}

/// The instructions that `term` lowers to in the function labelled `fname`.
pub fn compile_terminator(fname: &str, ctxt: &Ctxt, term: &Terminator) -> (r: Vec<Ins>)
    requires
        terminator_ok(ctxt@, *term),
    ensures
        views(r@) == terminator_code(fname@, ctxt@, *term),
{
    let mut result: Vec<Ins> = Vec::new();
    match term {
        Terminator::Ret(ty, v) => {
            if matches!(ty, Ty::Void) {
                push_epilogue(&mut result);
            } else {
                match v {
                    Some(op) => {
                        result.push(compile_operand(ctxt, Operand::Reg(Reg::Rax), op));
                        push_epilogue(&mut result);
                    },
                    None => vstd::pervasive::unreached(),
                }
            }
            assert(views(result@) =~= terminator_code(fname@, ctxt@, *term));
        },
        Terminator::Br(l) => {
            result.push(mk_ins1(Opcode::Jmp, Operand::Imm(Imm::Lbl(mk_lbl(fname, l)))));
            assert(views(result@) =~= terminator_code(fname@, ctxt@, *term));
        },
        Terminator::Cbr(cond, lbl_true, lbl_false) => {
            result.push(compile_operand(ctxt, Operand::Reg(Reg::Rax), cond));
            result.push(mk_ins2(Opcode::Cmpq, mk_lit(0), Operand::Reg(Reg::Rax)));
            result.push(
                mk_ins1(Opcode::J(Cnd::Eq), Operand::Imm(Imm::Lbl(mk_lbl(fname, lbl_false)))),
            );
            result.push(mk_ins1(Opcode::Jmp, Operand::Imm(Imm::Lbl(mk_lbl(fname, lbl_true)))));
            assert(views(result@) =~= terminator_code(fname@, ctxt@, *term));
        },
    }
    result
}

/// The instructions that the named instructions `insns` lower to, in order.
pub open spec fn insns_code(cx: CtxtView, insns: Seq<(Uid, Insn)>) -> Seq<InsView>
    decreases insns.len(),
{
    if insns.len() == 0 {
        seq![]
    } else {
        insns_code(cx, insns.drop_last()) + insn_code(cx, insns.last().0@, insns.last().1)
    }
}

/// Every instruction of `blk` and its terminator can be lowered.
pub open spec fn block_ok(cx: CtxtView, blk: Block) -> bool {
    &&& forall|i: int|
        0 <= i < blk.insns@.len() ==> insn_ok(cx, (#[trigger] blk.insns@[i]).0@, blk.insns@[i].1)
    &&& terminator_ok(cx, blk.term.1)
}

/// The instructions that `blk` lowers to in the function labelled `fname`:
/// those of its instructions in order, then those of its terminator.
pub open spec fn block_code(fname: Seq<char>, cx: CtxtView, blk: Block) -> Seq<InsView> {
    insns_code(cx, blk.insns@) + terminator_code(fname, cx, blk.term.1)
}

/// The instructions that `blk` lowers to in the function labelled `fname`.
pub fn compile_block<'a>(fname: &str, ctxt: &Ctxt<'a>, blk: &'a Block) -> (r: Vec<Ins>)
    requires
        acyclic(ctxt@.tdecls),
        block_ok(ctxt@, *blk),
    ensures
        views(r@) == block_code(fname@, ctxt@, *blk),
{
    let mut result: Vec<Ins> = Vec::new();
    let mut i: usize = 0;
    assert(views(result@) =~= insns_code(ctxt@, blk.insns@.take(0)));
    while i < blk.insns.len()
        invariant
            i <= blk.insns.len(),
            acyclic(ctxt@.tdecls),
            block_ok(ctxt@, *blk),
            views(result@) == insns_code(ctxt@, blk.insns@.take(i as int)),
        decreases blk.insns.len() - i,
    {
        assert(blk.insns@.take(i as int + 1).drop_last() == blk.insns@.take(i as int));
        assert(insn_ok(ctxt@, blk.insns@[i as int].0@, blk.insns@[i as int].1));
        let mut code = compile_insn(ctxt, &blk.insns[i].0, &blk.insns[i].1);
        result.append(&mut code);
        i += 1;
    }
    assert(blk.insns@.take(i as int) == blk.insns@);
    let mut code = compile_terminator(fname, ctxt, &blk.term.1);
    result.append(&mut code);
    result
}

/// The code block that the block `blk`, labelled `lbl`, becomes in the
/// function labelled `fname`: its label is not exported.
pub open spec fn lbl_block_elem(fname: Seq<char>, lbl: Seq<char>, cx: CtxtView, blk: Block) -> ElemView {
    ElemView {
        lbl: block_label(fname, lbl),
        global: false,
        body: AsmView::Text(block_code(fname, cx, blk)),
    }
}

/// The code block that the block `blk`, labelled `lbl`, becomes in the
/// function labelled `fname`.
pub fn compile_lbl_block<'a>(fname: &str, lbl: &Lbl, ctxt: &Ctxt<'a>, blk: &'a Block) -> (r: Elem)
    requires
        acyclic(ctxt@.tdecls),
        block_ok(ctxt@, *blk),
    ensures
        r@ == lbl_block_elem(fname@, lbl@, ctxt@, *blk),
{
    let label = mk_lbl(fname, lbl);
    text(label.as_str(), compile_block(fname, ctxt, blk))
}

} // verus!
