//! What holds of every stack layout and of every address computation.

use vstd::prelude::*;
use vstd::arithmetic::logarithm::log;
use vstd::arithmetic::power2::is_pow2;
use crate::backend::context::{ins2, layout_of, lit, reg, CtxtView};
use crate::backend::lower::{
    add_imm, add_scaled, gep_code, gep_ok, gep_walk, gep_walk_ok, load_operand, pointee,
};
use crate::backend::types::{resolved, ty_size, tys_size};
use crate::llvm;
use crate::llvm::Ty;
use crate::x86::{Opcode, Reg};

verus! {

/// An index that is no constant is scaled at run time, and two
/// instructions do it: where the size of an element is a power of two, a
/// shift by its logarithm and an addition; else a multiplication by the
/// size and an addition.
pub proof fn law_dynamic_scaling(cx: CtxtView, idx: llvm::Operand, elem_sz: nat)
    requires
        !(idx is Const),
        elem_sz > 0,
    ensures
        is_pow2(elem_sz as int) ==> add_scaled(cx, idx, elem_sz) == seq![
            load_operand(cx, Reg::R11, idx),
            ins2(Opcode::Shlq, lit(log(2, elem_sz as int) as i64), reg(Reg::R11)),
            ins2(Opcode::Addq, reg(Reg::R11), reg(Reg::Rax)),
        ],
        !is_pow2(elem_sz as int) ==> add_scaled(cx, idx, elem_sz) == seq![
            load_operand(cx, Reg::R11, idx),
            ins2(Opcode::Imulq, lit(elem_sz as i64), reg(Reg::R11)),
            ins2(Opcode::Addq, reg(Reg::R11), reg(Reg::Rax)),
        ],
{
    if is_pow2(elem_sz as int) {
        assert(add_scaled(cx, idx, elem_sz) =~= seq![
            load_operand(cx, Reg::R11, idx),
            ins2(Opcode::Shlq, lit(log(2, elem_sz as int) as i64), reg(Reg::R11)),
            ins2(Opcode::Addq, reg(Reg::R11), reg(Reg::Rax)),
        ]);
    } else {
        assert(add_scaled(cx, idx, elem_sz) =~= seq![
            load_operand(cx, Reg::R11, idx),
            ins2(Opcode::Imulq, lit(elem_sz as i64), reg(Reg::R11)),
            ins2(Opcode::Addq, reg(Reg::R11), reg(Reg::Rax)),
        ]);
    }
}

/// Elements of 16 bytes are scaled by a shift by 4.
pub proof fn law_scale_by_16(cx: CtxtView, idx: llvm::Operand)
    requires
        !(idx is Const),
    ensures
        add_scaled(cx, idx, 16) == seq![
            load_operand(cx, Reg::R11, idx),
            ins2(Opcode::Shlq, lit(4), reg(Reg::R11)),
            ins2(Opcode::Addq, reg(Reg::R11), reg(Reg::Rax)),
        ],
{
    reveal_with_fuel(is_pow2, 6);
    reveal_with_fuel(log, 6);
    assert(is_pow2(16));
    assert(log(2, 16) == 4);
    law_dynamic_scaling(cx, idx, 16);
}

/// Elements of 12 bytes are scaled by a multiplication by 12.
pub proof fn law_scale_by_12(cx: CtxtView, idx: llvm::Operand)
    requires
        !(idx is Const),
    ensures
        add_scaled(cx, idx, 12) == seq![
            load_operand(cx, Reg::R11, idx),
            ins2(Opcode::Imulq, lit(12), reg(Reg::R11)),
            ins2(Opcode::Addq, reg(Reg::R11), reg(Reg::Rax)),
        ],
{
    reveal_with_fuel(is_pow2, 6);
    assert(!is_pow2(12));
    law_dynamic_scaling(cx, idx, 12);
}

/// The type that walking `path` from the type `cur` ends at.
pub open spec fn walk_end(cx: CtxtView, cur: Ty, path: Seq<llvm::Operand>) -> Ty
    decreases path.len(),
{
    if path.len() == 0 {
        cur
    } else {
        match resolved(cx.tdecls, cur) {
            Ty::Struct(fields) => match path[0] {
                llvm::Operand::Const(c) => if 0 <= c < fields@.len() {
                    walk_end(cx, fields@[c as int], path.drop_first())
                } else {
                    cur
                },
                _ => cur,
            },
            Ty::Array(_, e) => walk_end(cx, *e, path.drop_first()),
            _ => cur,
        }
    }
}

/// A walk in two parts adds what its parts add, the second part starting
/// at the type at which the first ends.
pub proof fn lemma_gep_walk_add(
    cx: CtxtView,
    cur: Ty,
    a: Seq<llvm::Operand>,
    b: Seq<llvm::Operand>,
)
    requires
        gep_walk_ok(cx, cur, a),
    ensures
        gep_walk(cx, cur, a + b) == gep_walk(cx, cur, a) + gep_walk(cx, walk_end(cx, cur, a), b),
        gep_walk_ok(cx, cur, a + b) == gep_walk_ok(cx, walk_end(cx, cur, a), b),
    decreases a.len(),
{
    if a.len() == 0 {
        assert(a + b == b);
        assert(gep_walk(cx, cur, a) + gep_walk(cx, cur, b) =~= gep_walk(cx, cur, b));
    } else {
        assert((a + b).drop_first() == a.drop_first() + b);
        assert((a + b)[0] == a[0]);
        match resolved(cx.tdecls, cur) {
            Ty::Struct(fields) => match a[0] {
                llvm::Operand::Const(c) => {
                    lemma_gep_walk_add(cx, fields@[c as int], a.drop_first(), b);
                    let first = add_imm(tys_size(cx.tdecls, fields@.take(c as int)) as i64);
                    assert(first + (gep_walk(cx, fields@[c as int], a.drop_first()) + gep_walk(
                        cx,
                        walk_end(cx, cur, a),
                        b,
                    )) =~= (first + gep_walk(cx, fields@[c as int], a.drop_first())) + gep_walk(
                        cx,
                        walk_end(cx, cur, a),
                        b,
                    ));
                },
                _ => {},
            },
            Ty::Array(_, e) => {
                lemma_gep_walk_add(cx, *e, a.drop_first(), b);
                let first = add_scaled(cx, a[0], ty_size(cx.tdecls, *e));
                assert(first + (gep_walk(cx, *e, a.drop_first()) + gep_walk(
                    cx,
                    walk_end(cx, cur, a),
                    b,
                )) =~= (first + gep_walk(cx, *e, a.drop_first())) + gep_walk(
                    cx,
                    walk_end(cx, cur, a),
                    b,
                ));
            },
            _ => {},
        }
    }
}

/// Whether `t` stands for a struct of two 64-bit integers.
pub open spec fn is_pair_of_i64(cx: CtxtView, t: Ty) -> bool {
    resolved(cx.tdecls, t) matches Ty::Struct(fields) && fields@.len() == 2 && fields@[0] is I64
        && fields@[1] is I64
}

/// Picking the second field of a struct of two 64-bit integers adds 8 to
/// the address, and nothing else.
pub proof fn law_second_field(cx: CtxtView, cur: Ty)
    requires
        is_pair_of_i64(cx, cur),
    ensures
        gep_walk_ok(cx, cur, seq![llvm::Operand::Const(1)]),
        gep_walk(cx, cur, seq![llvm::Operand::Const(1)]) == seq![
            ins2(Opcode::Addq, lit(8), reg(Reg::Rax)),
        ],
{
    reveal_with_fuel(tys_size, 3);
    reveal_with_fuel(crate::backend::types::sizes_fit, 3);
    reveal_with_fuel(gep_walk, 2);
    reveal_with_fuel(gep_walk_ok, 2);
    let path = seq![llvm::Operand::Const(1)];
    match resolved(cx.tdecls, cur) {
        Ty::Struct(fields) => {
            let first = fields@.take(1);
            assert(first.drop_last() =~= seq![]);
            assert(first.last() == fields@[0]);
            assert(tys_size(cx.tdecls, first) == 8);
            assert(path.drop_first() =~= seq![]);
            assert(gep_walk(cx, cur, path) =~= seq![ins2(Opcode::Addq, lit(8), reg(Reg::Rax))]);
        },
        _ => {},
    }
}

/// The second field of a struct of two 64-bit integers lies 8 bytes behind
/// the start of the struct wherever the struct stands: a walk that ends at
/// such a struct and then picks its second field adds 8 to what the walk
/// has added before.
pub proof fn law_second_field_nested(cx: CtxtView, base: Ty, pre: Seq<llvm::Operand>)
    requires
        gep_walk_ok(cx, base, pre),
        is_pair_of_i64(cx, walk_end(cx, base, pre)),
    ensures
        gep_walk_ok(cx, base, pre.push(llvm::Operand::Const(1))),
        gep_walk(cx, base, pre.push(llvm::Operand::Const(1))) == gep_walk(cx, base, pre).push(
            ins2(Opcode::Addq, lit(8), reg(Reg::Rax)),
        ),
{
    let last = seq![llvm::Operand::Const(1)];
    assert(pre.push(llvm::Operand::Const(1)) =~= pre + last);
    lemma_gep_walk_add(cx, base, pre, last);
    law_second_field(cx, walk_end(cx, base, pre));
    assert(gep_walk(cx, base, pre) + seq![ins2(Opcode::Addq, lit(8), reg(Reg::Rax))]
        =~= gep_walk(cx, base, pre).push(ins2(Opcode::Addq, lit(8), reg(Reg::Rax))));
}

/// As [`law_second_field_nested`], for a whole address computation: behind
/// any base pointer and any first index.
pub proof fn law_second_field_of_gep(
    cx: CtxtView,
    base_ty: Ty,
    base_op: llvm::Operand,
    path: Seq<llvm::Operand>,
)
    requires
        path.len() > 0,
        gep_ok(cx, base_ty, base_op, path),
        is_pair_of_i64(cx, walk_end(cx, pointee(cx, base_ty), path.drop_first())),
    ensures
        gep_ok(cx, base_ty, base_op, path.push(llvm::Operand::Const(1))),
        gep_code(cx, base_ty, base_op, path.push(llvm::Operand::Const(1))) == gep_code(
            cx,
            base_ty,
            base_op,
            path,
        ).push(ins2(Opcode::Addq, lit(8), reg(Reg::Rax))),
{
    let longer = path.push(llvm::Operand::Const(1));
    assert(longer.drop_first() =~= path.drop_first().push(llvm::Operand::Const(1)));
    assert(longer[0] == path[0]);
    law_second_field_nested(cx, pointee(cx, base_ty), path.drop_first());
    assert(gep_code(cx, base_ty, base_op, longer) =~= gep_code(cx, base_ty, base_op, path).push(
        ins2(Opcode::Addq, lit(8), reg(Reg::Rax)),
    ));
}

/// Every name of a layout has the slot of a place at which it is bound:
/// the name bound at the `k`-th place, counted from 1, lives `8k` bytes
/// below the frame base, unless it is bound again later.
pub proof fn law_slot_of_place(uids: Seq<Seq<char>>, name: Seq<char>)
    requires
        8 * uids.len() <= i64::MAX,
        layout_of(uids).contains_key(name),
    ensures
        exists|k: int|
            0 <= k < uids.len() && #[trigger] uids[k] == name && layout_of(uids)[name] == -8 * (k
                + 1) && (forall|j: int| k < j < uids.len() ==> uids[j] != name),
    decreases uids.len(),
{
    if uids.len() > 0 {
        let k = uids.len() - 1;
        if uids.last() == name {
            assert(uids[k] == name);
        } else {
            law_slot_of_place(uids.drop_last(), name);
            let k0 = choose|k: int|
                0 <= k < uids.drop_last().len() && #[trigger] uids.drop_last()[k] == name
                    && layout_of(uids.drop_last())[name] == -8 * (k + 1) && (forall|j: int|
                    k < j < uids.drop_last().len() ==> uids.drop_last()[j] != name);
            assert(uids[k0] == name);
            assert forall|j: int| k0 < j < uids.len() implies uids[j] != name by {
                if j < uids.len() - 1 {
                    assert(uids.drop_last()[j] == uids[j]);
                }
            }
        }
    }
}

/// No two names of a layout share a slot.
pub proof fn law_slots_do_not_alias(uids: Seq<Seq<char>>, a: Seq<char>, b: Seq<char>)
    requires
        8 * uids.len() <= i64::MAX,
        layout_of(uids).contains_key(a),
        layout_of(uids).contains_key(b),
        a != b,
    ensures
        layout_of(uids)[a] != layout_of(uids)[b],
{
    law_slot_of_place(uids, a);
    law_slot_of_place(uids, b);
}

} // verus!
