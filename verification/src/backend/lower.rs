//! Lowering of operands, comparisons and address computations.

use vstd::prelude::*;
use crate::seqs::views;
use vstd::arithmetic::logarithm::log;
use vstd::arithmetic::power2::is_pow2;
use crate::backend::context::{
    ins2, lit, mangle, mangled, mk_ins2, mk_lit, mk_slot, reg, slot, Ctxt, CtxtView,
};
use crate::backend::types::{
    acyclic, lemma_sizes_fit_prefix, resolve_ty, resolved, size_fits, size_ty, sizes_fit, ty_size,
    tys_size, TypeTable,
};
use crate::llvm;
use crate::llvm::Ty;
use crate::x86::{Cnd, Imm, ImmView, Ins, InsView, Opcode, Operand, OperandView, Reg};

verus! {

broadcast use crate::seqs::group_views;

/// The condition code that tests the comparison `c`.
pub open spec fn cnd_code(c: llvm::Cnd) -> Cnd {
    match c {
        llvm::Cnd::Eq => Cnd::Eq,
        llvm::Cnd::Ne => Cnd::Neq,
        llvm::Cnd::Slt => Cnd::Lt,
        llvm::Cnd::Sle => Cnd::Le,
        llvm::Cnd::Sgt => Cnd::Gt,
        llvm::Cnd::Sge => Cnd::Ge,
    }
}

/// The condition code that tests the comparison `c`.
pub fn compile_cnd(c: &llvm::Cnd) -> (r: Cnd)
    ensures
        r == cnd_code(*c),
{
    match c {
        llvm::Cnd::Eq => Cnd::Eq,
        llvm::Cnd::Ne => Cnd::Neq,
        llvm::Cnd::Slt => Cnd::Lt,
        llvm::Cnd::Sle => Cnd::Le,
        llvm::Cnd::Sgt => Cnd::Gt,
        llvm::Cnd::Sge => Cnd::Ge,
    }
}

/// A local name that `op` reads has a stack slot.
pub open spec fn operand_known(cx: CtxtView, op: llvm::Operand) -> bool {
    op matches llvm::Operand::Id(u) ==> cx.layout.contains_key(u@)
}

/// The instruction that brings the value of `op` into the register `dest`:
/// a constant by an immediate move (null is 0), a global by taking its
/// address relative to the instruction pointer, a local from its stack slot.
pub open spec fn load_operand(cx: CtxtView, dest: Reg, op: llvm::Operand) -> InsView {
    match op {
        llvm::Operand::Null => ins2(Opcode::Movq, lit(0), reg(dest)),
        llvm::Operand::Const(c) => ins2(Opcode::Movq, lit(c), reg(dest)),
        llvm::Operand::Gid(g) => ins2(
            Opcode::Leaq,
            OperandView::Ind3(ImmView::Lbl(mangled(cx.mangling, g@)), Reg::Rip),
            reg(dest),
        ),
        llvm::Operand::Id(u) => ins2(Opcode::Movq, slot(cx.layout[u@]), reg(dest)),
    }
}

/// The register that the operand `o` is; any register where it is none.
pub open spec fn reg_of(o: OperandView) -> Reg {
    match o {
        OperandView::Reg(r) => r,
        _ => arbitrary(),
    }
}

/// The instruction that brings the value of `op` into the register `dest`.
pub fn compile_operand(ctxt: &Ctxt, dest: Operand, op: &llvm::Operand) -> (r: Ins)
    requires
        dest@ is Reg,
        operand_known(ctxt@, *op),
    ensures
        r@ == load_operand(ctxt@, reg_of(dest@), *op),
{
    match op {
        llvm::Operand::Null => mk_ins2(Opcode::Movq, mk_lit(0), dest),
        llvm::Operand::Const(c) => mk_ins2(Opcode::Movq, mk_lit(*c), dest),
        llvm::Operand::Gid(g) => mk_ins2(
            Opcode::Leaq,
            Operand::Ind3(Imm::Lbl(mangle(ctxt.mangling, g.as_str())), Reg::Rip),
            dest,
        ),
        llvm::Operand::Id(uid) => {
            match ctxt.layout.get(uid.as_str()) {
                Some(off) => mk_ins2(Opcode::Movq, mk_slot(*off), dest),
                None => vstd::pervasive::unreached(),
            }
        },
    }
}

/// The instruction, if one is needed, that adds `bytes` to the address in
/// `%rax`.
pub open spec fn add_imm(bytes: i64) -> Seq<InsView> {
    if bytes != 0 {
        seq![ins2(Opcode::Addq, lit(bytes), reg(Reg::Rax))]
    } else {
        seq![]
    }
}

/// The instructions that add `idx` times `elem_sz` to the address in
/// `%rax`. A constant index is multiplied here and added as an immediate.
/// Any other index is brought into `%r11` and scaled there: by a shift where
/// `elem_sz` is a power of two, else by a multiplication; nothing is added
/// where `elem_sz` is 0.
pub open spec fn add_scaled(cx: CtxtView, idx: llvm::Operand, elem_sz: nat) -> Seq<InsView> {
    match idx {
        llvm::Operand::Const(c) => add_imm((c * elem_sz) as i64),
        _ => seq![load_operand(cx, Reg::R11, idx)] + (if elem_sz == 0 {
            seq![]
        } else if is_pow2(elem_sz as int) {
            seq![
                ins2(Opcode::Shlq, lit(log(2, elem_sz as int) as i64), reg(Reg::R11)),
                ins2(Opcode::Addq, reg(Reg::R11), reg(Reg::Rax)),
            ]
        } else {
            seq![
                ins2(Opcode::Imulq, lit(elem_sz as i64), reg(Reg::R11)),
                ins2(Opcode::Addq, reg(Reg::R11), reg(Reg::Rax)),
            ]
        }),
    }
}

/// Scaling `idx` by `elem_sz` stays within a machine word, and `idx` can be
/// read.
pub open spec fn scaled_ok(cx: CtxtView, idx: llvm::Operand, elem_sz: nat) -> bool {
    &&& elem_sz <= i64::MAX
    &&& operand_known(cx, idx)
    &&& idx matches llvm::Operand::Const(c) ==> i64::MIN <= c * elem_sz <= i64::MAX
}

/// Appends [`add_imm`] to `insns`.
fn push_add_imm(insns: &mut Vec<Ins>, bytes: i64)
    ensures
        views(final(insns)@) == views(old(insns)@) + add_imm(bytes),
{
    if bytes != 0 {
        insns.push(mk_ins2(Opcode::Addq, mk_lit(bytes), Operand::Reg(Reg::Rax)));
        assert(views(insns@) =~= views(old(insns)@) + add_imm(bytes));
    } else {
        assert(views(insns@) =~= views(old(insns)@) + add_imm(bytes));
    }
}

/// Appends [`add_scaled`] to `insns`.
fn push_add_scaled(ctxt: &Ctxt, insns: &mut Vec<Ins>, idx_op: &llvm::Operand, elem_sz: usize)
    requires
        scaled_ok(ctxt@, *idx_op, elem_sz as nat),
    ensures
        views(final(insns)@) == views(old(insns)@) + add_scaled(ctxt@, *idx_op, elem_sz as nat),
{
    if let llvm::Operand::Const(c) = idx_op {
        push_add_imm(insns, *c * (elem_sz as i64));
    } else {
        insns.push(compile_operand(ctxt, Operand::Reg(Reg::R11), idx_op));
        if elem_sz == 0 {
        } else if crate::backend::types::is_pow2(elem_sz) {
            proof {
                vstd::arithmetic::power2::lemma2_to64_rest();
                vstd::arithmetic::power::lemma_pow_positive(2, 63);
                vstd::arithmetic::logarithm::lemma_log_pow(2, 63);
                vstd::arithmetic::logarithm::lemma_log_is_ordered(
                    2,
                    elem_sz as int,
                    vstd::arithmetic::power::pow(2, 63),
                );
            }
            let shift: usize = crate::backend::types::log2(elem_sz);
            insns.push(
                mk_ins2(Opcode::Shlq, mk_lit(shift as i64), Operand::Reg(Reg::R11)),
            );
            insns.push(
                mk_ins2(Opcode::Addq, Operand::Reg(Reg::R11), Operand::Reg(Reg::Rax)),
            );
        } else {
            insns.push(
                mk_ins2(Opcode::Imulq, mk_lit(elem_sz as i64), Operand::Reg(Reg::R11)),
            );
            insns.push(
                mk_ins2(Opcode::Addq, Operand::Reg(Reg::R11), Operand::Reg(Reg::Rax)),
            );
        }
        assert(views(insns@) =~= views(old(insns)@) + add_scaled(
            ctxt@,
            *idx_op,
            elem_sz as nat,
        ));
    }
}

/// The path `path` can be walked from the type `cur`: each index meets a
/// struct, and is then a constant that picks one of its fields, or meets an
/// array, and the sizes and offsets on the way stay within a machine word.
pub open spec fn gep_walk_ok(cx: CtxtView, cur: Ty, path: Seq<llvm::Operand>) -> bool
    decreases path.len(),
{
    path.len() > 0 ==> match resolved(cx.tdecls, cur) {
        Ty::Struct(fields) => match path[0] {
            llvm::Operand::Const(c) => {
                &&& 0 <= c < fields@.len()
                &&& sizes_fit(cx.tdecls, fields@.take(c as int))
                &&& tys_size(cx.tdecls, fields@.take(c as int)) <= i64::MAX
                &&& gep_walk_ok(cx, fields@[c as int], path.drop_first())
            },
            _ => false,
        },
        Ty::Array(_, e) => {
            &&& size_fits(cx.tdecls, *e)
            &&& scaled_ok(cx, path[0], ty_size(cx.tdecls, *e))
            &&& gep_walk_ok(cx, *e, path.drop_first())
        },
        _ => false,
    }
}

/// The instructions that walk `path` from the type `cur`, adding to the
/// address in `%rax`: for a struct the sizes of the fields before the one
/// picked, for an array the index scaled by the size of an element.
pub open spec fn gep_walk(cx: CtxtView, cur: Ty, path: Seq<llvm::Operand>) -> Seq<InsView>
    decreases path.len(),
{
    if path.len() == 0 {
        seq![]
    } else {
        match resolved(cx.tdecls, cur) {
            Ty::Struct(fields) => match path[0] {
                llvm::Operand::Const(c) => if 0 <= c < fields@.len() {
                    add_imm(tys_size(cx.tdecls, fields@.take(c as int)) as i64) + gep_walk(
                        cx,
                        fields@[c as int],
                        path.drop_first(),
                    )
                } else {
                    seq![]
                },
                _ => seq![],
            },
            Ty::Array(_, e) => add_scaled(cx, path[0], ty_size(cx.tdecls, *e)) + gep_walk(
                cx,
                *e,
                path.drop_first(),
            ),
            _ => seq![],
        }
    }
}

/// The type that the pointer type `base_ty` points to, names resolved.
pub open spec fn pointee(cx: CtxtView, base_ty: Ty) -> Ty {
    match resolved(cx.tdecls, base_ty) {
        Ty::Ptr(inner) => resolved(cx.tdecls, *inner),
        _ => arbitrary(),
    }
}

/// An address computation is well formed: the base is a pointer that can be
/// read, the first index scales over what it points to, and the rest of the
/// path can be walked from there.
pub open spec fn gep_ok(
    cx: CtxtView,
    base_ty: Ty,
    base_op: llvm::Operand,
    path: Seq<llvm::Operand>,
) -> bool {
    &&& resolved(cx.tdecls, base_ty) is Ptr
    &&& operand_known(cx, base_op)
    &&& path.len() > 0 ==> {
        &&& size_fits(cx.tdecls, pointee(cx, base_ty))
        &&& scaled_ok(cx, path[0], ty_size(cx.tdecls, pointee(cx, base_ty)))
        &&& gep_walk_ok(cx, pointee(cx, base_ty), path.drop_first())
    }
}

/// The instructions that compute an address into `%rax`: the base, then the
/// first index scaled by the size of what the base points to, then the walk
/// along the rest of the path.
pub open spec fn gep_code(
    cx: CtxtView,
    base_ty: Ty,
    base_op: llvm::Operand,
    path: Seq<llvm::Operand>,
) -> Seq<InsView> {
    seq![load_operand(cx, Reg::Rax, base_op)] + (if path.len() == 0 {
        seq![]
    } else {
        add_scaled(cx, path[0], ty_size(cx.tdecls, pointee(cx, base_ty))) + gep_walk(
            cx,
            pointee(cx, base_ty),
            path.drop_first(),
        )
    })
}

/// The sum of the sizes of the first `n` types of `fields`.
fn fields_offset(tdecls: &TypeTable, fields: &Vec<Ty>, n: usize) -> (r: usize)
    requires
        acyclic(tdecls@),
        n <= fields.len(),
        sizes_fit(tdecls@, fields@.take(n as int)),
    ensures
        r == tys_size(tdecls@, fields@.take(n as int)),
{
    let mut sum: usize = 0;
    let mut i: usize = 0;
    while i < n
        invariant
            i <= n <= fields.len(),
            acyclic(tdecls@),
            sizes_fit(tdecls@, fields@.take(n as int)),
            sum == tys_size(tdecls@, fields@.take(i as int)),
        decreases n - i,
    {
        proof {
            lemma_sizes_fit_prefix(tdecls@, fields@.take(n as int), i as int + 1);
            assert(fields@.take(n as int).take(i as int + 1) == fields@.take(i as int + 1));
            assert(fields@.take(i as int + 1).drop_last() == fields@.take(i as int));
        }
        let s: usize = size_ty(tdecls, &fields[i]);
        sum = sum + s;
        i += 1;
    }
    sum
}

/// The instructions that compute into `%rax` the address that the index
/// path `path` reaches from the pointer `base_op` of type `base_ty`.
pub fn compile_gep<'a>(
    ctxt: &Ctxt<'a>,
    base_ty: &'a Ty,
    base_op: &llvm::Operand,
    path: &'a [llvm::Operand],
) -> (r: Vec<Ins>)
    requires
        acyclic(ctxt@.tdecls),
        gep_ok(ctxt@, *base_ty, *base_op, path@),
    ensures
        views(r@) == gep_code(ctxt@, *base_ty, *base_op, path@),
{
    let mut insns: Vec<Ins> = Vec::new();
    let base_elt_ty: &Ty = match resolve_ty(&ctxt.tdecls, base_ty) {
        Ty::Ptr(inner) => resolve_ty(&ctxt.tdecls, inner),
        _ => vstd::pervasive::unreached(),
    };
    insns.push(compile_operand(ctxt, Operand::Reg(Reg::Rax), base_op));
    if path.len() == 0 {
        assert(views(insns@) =~= gep_code(ctxt@, *base_ty, *base_op, path@));
        return insns;
    }
    let sz0: usize = size_ty(&ctxt.tdecls, base_elt_ty);
    push_add_scaled(ctxt, &mut insns, &path[0], sz0);
    let mut cur_ty: &Ty = base_elt_ty;
    let mut i: usize = 1;
    assert(path@.drop_first() == path@.skip(1));
    assert(views(insns@) + gep_walk(ctxt@, *cur_ty, path@.skip(1)) =~= gep_code(
        ctxt@,
        *base_ty,
        *base_op,
        path@,
    ));
    while i < path.len()
        invariant
            1 <= i <= path.len(),
            acyclic(ctxt@.tdecls),
            gep_walk_ok(ctxt@, *cur_ty, path@.skip(i as int)),
            views(insns@) + gep_walk(ctxt@, *cur_ty, path@.skip(i as int)) == gep_code(
                ctxt@,
                *base_ty,
                *base_op,
                path@,
            ),
        decreases path.len() - i,
    {
        let ghost rest = path@.skip(i as int);
        let ghost before = views(insns@);
        let ghost here = *cur_ty;
        assert(rest[0] == path@[i as int]);
        assert(rest.drop_first() == path@.skip(i as int + 1));
        let idx_op: &llvm::Operand = &path[i];
        match resolve_ty(&ctxt.tdecls, cur_ty) {
            Ty::Struct(fields) => {
                let field_idx: usize = match idx_op {
                    llvm::Operand::Const(c) => *c as usize,
                    _ => vstd::pervasive::unreached(),
                };
                let offset: usize = fields_offset(&ctxt.tdecls, fields, field_idx);
                push_add_imm(&mut insns, offset as i64);
                cur_ty = &fields[field_idx];
                assert(views(insns@) + gep_walk(ctxt@, *cur_ty, rest.drop_first()) =~= before
                    + gep_walk(ctxt@, here, rest));
            },
            Ty::Array(_, elem_ty) => {
                let esz: usize = size_ty(&ctxt.tdecls, elem_ty);
                push_add_scaled(ctxt, &mut insns, idx_op, esz);
                cur_ty = elem_ty;
                assert(views(insns@) + gep_walk(ctxt@, *cur_ty, rest.drop_first()) =~= before
                    + gep_walk(ctxt@, here, rest));
            },
            _ => {
                assert(false);
            },
        }
        i += 1;
    }
    assert(path@.skip(i as int) =~= seq![]);
    assert(views(insns@) =~= views(insns@) + gep_walk(ctxt@, *cur_ty, path@.skip(i as int)));
    insns
}

} // verus!
