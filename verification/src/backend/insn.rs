//! Lowering of instructions.

use vstd::prelude::*;
use crate::seqs::views;
use crate::backend::context::{
    ins1, ins2, lbl, lit, mangle, mangled, mk_ins1, mk_ins2, mk_lit, mk_size_lit, mk_slot, reg,
    size_lit, slot, Ctxt, CtxtView,
};
use crate::backend::lower::{
    cnd_code, compile_cnd, compile_gep, compile_operand, gep_code, gep_ok, load_operand,
    operand_known,
};
use crate::backend::types::{acyclic, size_fits, size_ty, ty_size};
use crate::llvm;
use crate::llvm::{Bop, Insn, Ty, Uid};
use crate::x86::{Imm, Ins, InsView, Opcode, Operand, OperandView, Reg};

verus! {

broadcast use crate::seqs::group_views;

/// The machine operation that computes `bop`.
pub open spec fn bop_code(bop: Bop) -> Opcode {
    match bop {
        Bop::Add => Opcode::Addq,
        Bop::Sub => Opcode::Subq,
        Bop::Mul => Opcode::Imulq,
        Bop::Shl => Opcode::Shlq,
        Bop::Lshr => Opcode::Shrq,
        Bop::Ashr => Opcode::Sarq,
        Bop::And => Opcode::Andq,
        Bop::Or => Opcode::Orq,
        Bop::Xor => Opcode::Xorq,
    }
}

/// Whether `bop` is a shift; the machine takes a shift count from `%rcx`
/// only.
pub open spec fn is_shift(bop: Bop) -> bool {
    bop is Shl || bop is Lshr || bop is Ashr
}

/// The register that takes the `i`-th argument of a call, counted from 0,
/// for `i` below 6.
pub open spec fn arg_reg(i: int) -> Reg {
    if i == 0 {
        Reg::Rdi
    } else if i == 1 {
        Reg::Rsi
    } else if i == 2 {
        Reg::Rdx
    } else if i == 3 {
        Reg::Rcx
    } else if i == 4 {
        Reg::R08
    } else {
        Reg::R09
    }
}

/// The instructions that hand over the `i`-th argument `op` of a call: the
/// first six go to their registers, each later one is pushed on the stack.
pub open spec fn arg_code(cx: CtxtView, i: int, op: llvm::Operand) -> Seq<InsView> {
    if i < 6 {
        seq![load_operand(cx, arg_reg(i), op)]
    } else {
        seq![load_operand(cx, Reg::Rax, op), ins1(Opcode::Pushq, reg(Reg::Rax))]
    }
}

/// The instructions that hand over the arguments `args` of a call, in order.
pub open spec fn args_code(cx: CtxtView, args: Seq<(Ty, llvm::Operand)>) -> Seq<InsView>
    decreases args.len(),
{
    if args.len() == 0 {
        seq![]
    } else {
        args_code(cx, args.drop_last()) + arg_code(cx, args.len() - 1, args.last().1)
    }
}

/// The instructions that transfer control to `callee`: a global is called
/// by its label, any other value is brought into `%rax` and called through
/// it.
pub open spec fn call_code(cx: CtxtView, callee: llvm::Operand) -> Seq<InsView> {
    match callee {
        llvm::Operand::Gid(f) => seq![ins1(Opcode::Callq, lbl(mangled(cx.mangling, f@)))],
        _ => seq![load_operand(cx, Reg::Rax, callee), ins1(Opcode::Callq, reg(Reg::Rax))],
    }
}

/// The instruction `insn`, which binds `uid`, can be lowered: `uid` and
/// every local that `insn` reads have stack slots, and the sizes and offsets
/// that it needs stay within a machine word.
pub open spec fn insn_ok(cx: CtxtView, uid: Seq<char>, insn: Insn) -> bool {
    &&& cx.layout.contains_key(uid)
    &&& match insn {
        Insn::Binop(_, _, x1, x2) => operand_known(cx, x1) && operand_known(cx, x2),
        Insn::Alloca(t) => size_fits(cx.tdecls, t) && ty_size(cx.tdecls, t) <= i64::MAX,
        Insn::Load(_, p) => operand_known(cx, p),
        Insn::Store(_, v, p) => operand_known(cx, v) && operand_known(cx, p),
        Insn::Icmp(_, _, x1, x2) => operand_known(cx, x1) && operand_known(cx, x2),
        Insn::Call(_, callee, args) => {
            &&& operand_known(cx, callee)
            &&& forall|i: int| 0 <= i < args@.len() ==> operand_known(cx, #[trigger] args@[i].1)
        },
        Insn::Bitcast(_, op, _) => operand_known(cx, op),
        Insn::Gep(t, base, path) => gep_ok(cx, t, base, path@),
    }
}

/// The instructions that `insn` lowers to, where `insn` binds `uid`. But
/// for a store, and a call without a result, they end by moving the result
/// into the stack slot of `uid`.
pub open spec fn insn_code(cx: CtxtView, uid: Seq<char>, insn: Insn) -> Seq<InsView> {
    let dst = slot(cx.layout[uid]);
    match insn {
        Insn::Binop(bop, _, x1, x2) => seq![
            load_operand(cx, Reg::Rax, x1),
            load_operand(cx, Reg::Rbx, x2),
        ] + (if is_shift(bop) {
            seq![
                ins2(Opcode::Movq, reg(Reg::Rbx), reg(Reg::Rcx)),
                ins2(bop_code(bop), reg(Reg::Rcx), reg(Reg::Rax)),
            ]
        } else {
            seq![ins2(bop_code(bop), reg(Reg::Rbx), reg(Reg::Rax))]
        }) + seq![ins2(Opcode::Movq, reg(Reg::Rax), dst)],
        Insn::Alloca(t) => seq![
            ins2(Opcode::Subq, size_lit(ty_size(cx.tdecls, t)), reg(Reg::Rsp)),
            ins2(Opcode::Movq, reg(Reg::Rsp), dst),
        ],
        Insn::Load(_, p) => seq![
            load_operand(cx, Reg::Rax, p),
            ins2(Opcode::Movq, OperandView::Ind2(Reg::Rax), reg(Reg::Rbx)),
            ins2(Opcode::Movq, reg(Reg::Rbx), dst),
        ],
        Insn::Store(_, v, p) => seq![
            load_operand(cx, Reg::Rax, p),
            load_operand(cx, Reg::Rbx, v),
            ins2(Opcode::Movq, reg(Reg::Rbx), OperandView::Ind2(Reg::Rax)),
        ],
        Insn::Icmp(c, _, x1, x2) => seq![
            load_operand(cx, Reg::Rax, x1),
            load_operand(cx, Reg::Rbx, x2),
            ins2(Opcode::Movq, lit(0), dst),
            ins2(Opcode::Cmpq, reg(Reg::Rbx), reg(Reg::Rax)),
            ins1(Opcode::Setcc(cnd_code(c)), dst),
        ],
        Insn::Call(ret_ty, callee, args) => args_code(cx, args@) + call_code(cx, callee) + (
        if ret_ty is Void {
            seq![]
        } else {
            seq![ins2(Opcode::Movq, reg(Reg::Rax), dst)]
        }),
        Insn::Bitcast(_, op, _) => seq![
            load_operand(cx, Reg::Rax, op),
            ins2(Opcode::Movq, reg(Reg::Rax), dst),
        ],
        Insn::Gep(t, base, path) => gep_code(cx, t, base, path@) + seq![
            ins2(Opcode::Movq, reg(Reg::Rax), dst),
        ],
    }
}

/// The register that takes the `i`-th argument of a call.
fn arg_register(i: usize) -> (r: Reg)
    requires
        i < 6,
    ensures
        r == arg_reg(i as int),
{
    if i == 0 {
        Reg::Rdi
    } else if i == 1 {
        Reg::Rsi
    } else if i == 2 {
        Reg::Rdx
    } else if i == 3 {
        Reg::Rcx
    } else if i == 4 {
        Reg::R08
    } else {
        Reg::R09
    }
}

/// Appends the instructions that compute `bop` on `%rax` and `%rbx`.
fn push_binop(result: &mut Vec<Ins>, bop: Bop)
    ensures
        views(final(result)@) == views(old(result)@) + (if is_shift(bop) {
            seq![
                ins2(Opcode::Movq, reg(Reg::Rbx), reg(Reg::Rcx)),
                ins2(bop_code(bop), reg(Reg::Rcx), reg(Reg::Rax)),
            ]
        } else {
            seq![ins2(bop_code(bop), reg(Reg::Rbx), reg(Reg::Rax))]
        }),
{
    let ghost before = views(result@);
    let opcode = match bop {
        Bop::Add => Opcode::Addq,
        Bop::Sub => Opcode::Subq,
        Bop::Mul => Opcode::Imulq,
        Bop::Shl => Opcode::Shlq,
        Bop::Lshr => Opcode::Shrq,
        Bop::Ashr => Opcode::Sarq,
        Bop::And => Opcode::Andq,
        Bop::Or => Opcode::Orq,
        Bop::Xor => Opcode::Xorq,
    };
    if matches!(bop, Bop::Shl | Bop::Lshr | Bop::Ashr) {
        result.push(mk_ins2(Opcode::Movq, Operand::Reg(Reg::Rbx), Operand::Reg(Reg::Rcx)));
        result.push(mk_ins2(opcode, Operand::Reg(Reg::Rcx), Operand::Reg(Reg::Rax)));
        assert(views(result@) =~= before + seq![
            ins2(Opcode::Movq, reg(Reg::Rbx), reg(Reg::Rcx)),
            ins2(bop_code(bop), reg(Reg::Rcx), reg(Reg::Rax)),
        ]);
    } else {
        result.push(mk_ins2(opcode, Operand::Reg(Reg::Rbx), Operand::Reg(Reg::Rax)));
        assert(views(result@) =~= before + seq![
            ins2(bop_code(bop), reg(Reg::Rbx), reg(Reg::Rax)),
        ]);
    }
}

/// Appends the instructions that hand over the arguments `args` of a call.
fn push_args(ctxt: &Ctxt, result: &mut Vec<Ins>, args: &Vec<(Ty, llvm::Operand)>)
    requires
        forall|i: int| 0 <= i < args@.len() ==> operand_known(ctxt@, #[trigger] args@[i].1),
    ensures
        views(final(result)@) == views(old(result)@) + args_code(ctxt@, args@),
{
    let mut i: usize = 0;
    assert(views(result@) =~= views(old(result)@) + args_code(ctxt@, args@.take(0)));
    while i < args.len()
        invariant
            i <= args.len(),
            forall|i: int| 0 <= i < args@.len() ==> operand_known(ctxt@, #[trigger] args@[i].1),
            views(result@) == views(old(result)@) + args_code(ctxt@, args@.take(i as int)),
        decreases args.len() - i,
    {
        let ghost before = views(result@);
        assert(args@.take(i as int + 1).drop_last() == args@.take(i as int));
        assert(operand_known(ctxt@, args@[i as int].1));
        if i < 6 {
            result.push(compile_operand(ctxt, Operand::Reg(arg_register(i)), &args[i].1));
        } else {
            result.push(compile_operand(ctxt, Operand::Reg(Reg::Rax), &args[i].1));
            result.push(mk_ins1(Opcode::Pushq, Operand::Reg(Reg::Rax)));
        }
        assert(views(result@) =~= before + arg_code(ctxt@, i as int, args@[i as int].1));
        assert(views(result@) =~= views(old(result)@) + args_code(
            ctxt@,
            args@.take(i as int + 1),
        ));
        i += 1;
    }
    assert(args@.take(i as int) == args@);
}

/// The instructions that `insn` lowers to, where `insn` binds `uid`.
pub fn compile_insn<'a>(ctxt: &Ctxt<'a>, uid: &Uid, insn: &'a Insn) -> (r: Vec<Ins>)
    requires
        acyclic(ctxt@.tdecls),
        insn_ok(ctxt@, uid@, *insn),
    ensures
        views(r@) == insn_code(ctxt@, uid@, *insn),
{
    let off: i64 = match ctxt.layout.get(uid.as_str()) {
        Some(off) => *off,
        None => vstd::pervasive::unreached(),
    };
    let mut result: Vec<Ins> = Vec::new();
    match insn {
        Insn::Binop(bop, _ty, x1, x2) => {
            result.push(compile_operand(ctxt, Operand::Reg(Reg::Rax), x1));
            result.push(compile_operand(ctxt, Operand::Reg(Reg::Rbx), x2));
            push_binop(&mut result, *bop);
            result.push(mk_ins2(Opcode::Movq, Operand::Reg(Reg::Rax), mk_slot(off)));
            assert(views(result@) =~= insn_code(ctxt@, uid@, *insn));
        },
        Insn::Alloca(ty) => {
            let nbytes: usize = size_ty(&ctxt.tdecls, ty);
            result.push(mk_ins2(Opcode::Subq, mk_size_lit(nbytes), Operand::Reg(Reg::Rsp)));
            result.push(mk_ins2(Opcode::Movq, Operand::Reg(Reg::Rsp), mk_slot(off)));
            assert(views(result@) =~= insn_code(ctxt@, uid@, *insn));
        },
        Insn::Load(_ty, ptr) => {
            result.push(compile_operand(ctxt, Operand::Reg(Reg::Rax), ptr));
            result.push(mk_ins2(Opcode::Movq, Operand::Ind2(Reg::Rax), Operand::Reg(Reg::Rbx)));
            result.push(mk_ins2(Opcode::Movq, Operand::Reg(Reg::Rbx), mk_slot(off)));
            assert(views(result@) =~= insn_code(ctxt@, uid@, *insn));
        },
        Insn::Store(_ty, val, ptr) => {
            result.push(compile_operand(ctxt, Operand::Reg(Reg::Rax), ptr));
            result.push(compile_operand(ctxt, Operand::Reg(Reg::Rbx), val));
            result.push(mk_ins2(Opcode::Movq, Operand::Reg(Reg::Rbx), Operand::Ind2(Reg::Rax)));
            assert(views(result@) =~= insn_code(ctxt@, uid@, *insn));
        },
        Insn::Icmp(cnd, _ty, x1, x2) => {
            result.push(compile_operand(ctxt, Operand::Reg(Reg::Rax), x1));
            result.push(compile_operand(ctxt, Operand::Reg(Reg::Rbx), x2));
            result.push(mk_ins2(Opcode::Movq, mk_lit(0), mk_slot(off)));
            result.push(mk_ins2(Opcode::Cmpq, Operand::Reg(Reg::Rbx), Operand::Reg(Reg::Rax)));
            result.push(mk_ins1(Opcode::Setcc(compile_cnd(cnd)), mk_slot(off)));
            assert(views(result@) =~= insn_code(ctxt@, uid@, *insn));
        },
        Insn::Call(ret_ty, callee, args) => {
            push_args(ctxt, &mut result, args);
            let ghost handed = views(result@);
            match callee {
                llvm::Operand::Gid(f) => {
                    result.push(
                        mk_ins1(
                            Opcode::Callq,
                            Operand::Imm(Imm::Lbl(mangle(ctxt.mangling, f.as_str()))),
                        ),
                    );
                },
                _ => {
                    result.push(compile_operand(ctxt, Operand::Reg(Reg::Rax), callee));
                    result.push(mk_ins1(Opcode::Callq, Operand::Reg(Reg::Rax)));
                },
            }
            assert(views(result@) =~= handed + call_code(ctxt@, *callee));
            if !matches!(ret_ty, Ty::Void) {
                result.push(mk_ins2(Opcode::Movq, Operand::Reg(Reg::Rax), mk_slot(off)));
            }
            assert(views(result@) =~= insn_code(ctxt@, uid@, *insn));
        },
        Insn::Bitcast(_t1, op, _t2) => {
            result.push(compile_operand(ctxt, Operand::Reg(Reg::Rax), op));
            result.push(mk_ins2(Opcode::Movq, Operand::Reg(Reg::Rax), mk_slot(off)));
            assert(views(result@) =~= insn_code(ctxt@, uid@, *insn));
        },
        Insn::Gep(ty, base, path) => {
            let mut code = compile_gep(ctxt, ty, base, path.as_slice());
            result.append(&mut code);
            result.push(mk_ins2(Opcode::Movq, Operand::Reg(Reg::Rax), mk_slot(off)));
            assert(views(result@) =~= insn_code(ctxt@, uid@, *insn));
        },
    }
    result
}

} // verus!
