//! Lowering of functions, globals and whole programs.

use vstd::prelude::*;
use crate::seqs::views;
use crate::backend::block::{
    block_code, block_ok, compile_block, compile_lbl_block, lbl_block_elem,
};
use crate::backend::context::{
    arg_loc, arg_slot, bound_uids, ins0, ins1, ins2, layout_of, lbl, mangle, mangled, mk_ins0,
    mk_ins1, mk_ins2, mk_lit, mk_slot, reg, size_lit, slot, stack_layout, Ctxt, CtxtView,
    Mangling,
};
use crate::backend::types::{acyclic, type_map, TypeTable};
use crate::llvm;
use crate::llvm::{Block, Fdecl, Gdecl, Gid, Ginit, Lbl, Tid, Ty, Uid};
use crate::x86::sugar::{data, gtext};
use crate::x86::{
    AsmView, Data, DataView, Elem, ElemView, Imm, ImmView, Ins, InsView, Opcode, Operand, Prog,
    Reg,
};

verus! {

broadcast use crate::seqs::group_views;

/// What the body of `fdecl` is lowered by: the declared types, the stack
/// layout of the function and the mangling.
pub open spec fn fdecl_ctxt(tdecls: Seq<(Tid, Ty)>, m: Mangling, fdecl: Fdecl) -> CtxtView {
    CtxtView {
        tdecls: type_map(tdecls),
        layout: layout_of(bound_uids(fdecl.f_param@, fdecl.f_cfg)),
        mangling: m,
    }
}

/// The instructions that copy each parameter from where the calling
/// convention hands it over into its stack slot, by way of `%rax`.
pub open spec fn params_code(cx: CtxtView, params: Seq<Uid>) -> Seq<InsView>
    decreases params.len(),
{
    if params.len() == 0 {
        seq![]
    } else {
        params_code(cx, params.drop_last()) + seq![
            ins2(Opcode::Movq, arg_slot((params.len() - 1) as nat), reg(Reg::Rax)),
            ins2(Opcode::Movq, reg(Reg::Rax), slot(cx.layout[params.last()@])),
        ]
    }
}

/// The instructions that enter a function: save the caller's frame base,
/// set up the own one, reserve 8 bytes for each slot of the layout, copy the
/// parameters into their slots.
pub open spec fn prologue(cx: CtxtView, params: Seq<Uid>) -> Seq<InsView> {
    seq![
        ins1(Opcode::Pushq, reg(Reg::Rbp)),
        ins2(Opcode::Movq, reg(Reg::Rsp), reg(Reg::Rbp)),
        ins2(Opcode::Subq, size_lit(8 * cx.layout.len()), reg(Reg::Rsp)),
    ] + params_code(cx, params)
}

/// The code blocks of the labelled blocks `blocks` of the function labelled
/// `fname`, in order.
pub open spec fn lbl_blocks_code(fname: Seq<char>, cx: CtxtView, blocks: Seq<(Lbl, Block)>) -> Seq<
    ElemView,
> {
    Seq::new(blocks.len(), |i: int| lbl_block_elem(fname, blocks[i].0@, cx, blocks[i].1))
}

/// The function `fdecl` can be lowered: its frame stays within a machine
/// word and each of its blocks can be lowered.
pub open spec fn fdecl_ok(tdecls: Seq<(Tid, Ty)>, m: Mangling, fdecl: Fdecl) -> bool {
    let cx = fdecl_ctxt(tdecls, m, fdecl);
    &&& 8 * bound_uids(fdecl.f_param@, fdecl.f_cfg).len() <= i64::MAX
    &&& block_ok(cx, fdecl.f_cfg.0)
    &&& forall|i: int|
        0 <= i < fdecl.f_cfg.1@.len() ==> block_ok(cx, (#[trigger] fdecl.f_cfg.1@[i]).1)
}

/// The blocks that the function `fdecl` named `name` lowers to. The first
/// is exported under the mangled name and holds the prologue and the entry
/// block; then comes each labelled block under its program-wide label.
pub open spec fn fdecl_code(tdecls: Seq<(Tid, Ty)>, m: Mangling, name: Seq<char>, fdecl: Fdecl) -> Seq<
    ElemView,
> {
    let cx = fdecl_ctxt(tdecls, m, fdecl);
    let fname = mangled(m, name);
    seq![
        ElemView {
            lbl: fname,
            global: true,
            body: AsmView::Text(
                prologue(cx, fdecl.f_param@) + block_code(fname, cx, fdecl.f_cfg.0),
            ),
        },
    ] + lbl_blocks_code(fname, cx, fdecl.f_cfg.1@)
}

/// A layout holds at most one slot for each name laid out.
pub proof fn lemma_layout_len(uids: Seq<Seq<char>>)
    ensures
        layout_of(uids).dom().finite(),
        layout_of(uids).len() <= uids.len(),
    decreases uids.len(),
{
    if uids.len() > 0 {
        lemma_layout_len(uids.drop_last());
        let m = layout_of(uids.drop_last());
        if m.dom().contains(uids.last()) {
            assert(m.dom().insert(uids.last()) == m.dom());
        }
    }
}

/// Every name laid out has a slot.
pub proof fn lemma_layout_contains(uids: Seq<Seq<char>>, i: int)
    requires
        0 <= i < uids.len(),
    ensures
        layout_of(uids).contains_key(uids[i]),
    decreases uids.len(),
{
    if i < uids.len() - 1 {
        lemma_layout_contains(uids.drop_last(), i);
    }
}

/// The blocks that the function `fdecl` named `name` lowers to.
pub fn compile_fdecl<'a>(
    tdecls: &'a [(Tid, Ty)],
    name: &str,
    fdecl: &'a Fdecl,
    mangling: Mangling,
) -> (r: Vec<Elem>)
    requires
        acyclic(type_map(tdecls@)),
        fdecl_ok(tdecls@, mangling, *fdecl),
    ensures
        views(r@) == fdecl_code(tdecls@, mangling, name@, *fdecl),
{
    let fname = mangle(mangling, name);
    let layout = stack_layout(fdecl.f_param.as_slice(), &fdecl.f_cfg);
    let ghost uids = bound_uids(fdecl.f_param@, fdecl.f_cfg);
    proof {
        lemma_layout_len(uids);
    }
    let frame_size: u64 = layout.len() as u64 * 8;
    let ctxt = Ctxt { tdecls: TypeTable::new(tdecls), layout, mangling };
    assert(ctxt@ == fdecl_ctxt(tdecls@, mangling, *fdecl));
    let mut prologue: Vec<Ins> = Vec::new();
    prologue.push(mk_ins1(Opcode::Pushq, Operand::Reg(Reg::Rbp)));
    prologue.push(mk_ins2(Opcode::Movq, Operand::Reg(Reg::Rsp), Operand::Reg(Reg::Rbp)));
    prologue.push(mk_ins2(Opcode::Subq, mk_lit(frame_size as i64), Operand::Reg(Reg::Rsp)));
    let ghost head = views(prologue@);
    assert(head =~= seq![
        ins1(Opcode::Pushq, reg(Reg::Rbp)),
        ins2(Opcode::Movq, reg(Reg::Rsp), reg(Reg::Rbp)),
        ins2(Opcode::Subq, size_lit(8 * ctxt@.layout.len()), reg(Reg::Rsp)),
    ]);
    let mut i: usize = 0;
    assert(views(prologue@) =~= head + params_code(ctxt@, fdecl.f_param@.take(0)));
    while i < fdecl.f_param.len()
        invariant
            i <= fdecl.f_param.len(),
            uids == bound_uids(fdecl.f_param@, fdecl.f_cfg),
            8 * uids.len() <= i64::MAX,
            ctxt@.layout == layout_of(uids),
            views(prologue@) == head + params_code(ctxt@, fdecl.f_param@.take(i as int)),
        decreases fdecl.f_param.len() - i,
    {
        let ghost before = views(prologue@);
        proof {
            assert(fdecl.f_param@.take(i as int + 1).drop_last() == fdecl.f_param@.take(i as int));
            lemma_layout_contains(uids, i as int);
            assert(uids[i as int] == fdecl.f_param@[i as int]@);
        }
        let off: i64 = match ctxt.layout.get(fdecl.f_param[i].as_str()) {
            Some(off) => *off,
            None => vstd::pervasive::unreached(),
        };
        prologue.push(mk_ins2(Opcode::Movq, arg_loc(i), Operand::Reg(Reg::Rax)));
        prologue.push(mk_ins2(Opcode::Movq, Operand::Reg(Reg::Rax), mk_slot(off)));
        assert(views(prologue@) =~= before + seq![
            ins2(Opcode::Movq, arg_slot(i as nat), reg(Reg::Rax)),
            ins2(Opcode::Movq, reg(Reg::Rax), slot(ctxt@.layout[fdecl.f_param@[i as int]@])),
        ]);
        assert(views(prologue@) =~= head + params_code(
            ctxt@,
            fdecl.f_param@.take(i as int + 1),
        ));
        i += 1;
    }
    assert(fdecl.f_param@.take(i as int) == fdecl.f_param@);
    let mut body = compile_block(fname.as_str(), &ctxt, &fdecl.f_cfg.0);
    let mut all_insns = prologue;
    all_insns.append(&mut body);
    let mut result: Vec<Elem> = Vec::new();
    result.push(gtext(fname.as_str(), all_insns));
    let ghost first = views(result@);
    let mut j: usize = 0;
    assert(views(result@) =~= first + lbl_blocks_code(fname@, ctxt@, fdecl.f_cfg.1@.take(0)));
    while j < fdecl.f_cfg.1.len()
        invariant
            j <= fdecl.f_cfg.1.len(),
            acyclic(ctxt@.tdecls),
            forall|i: int|
                0 <= i < fdecl.f_cfg.1@.len() ==> block_ok(
                    ctxt@,
                    (#[trigger] fdecl.f_cfg.1@[i]).1,
                ),
            views(result@) == first + lbl_blocks_code(
                fname@,
                ctxt@,
                fdecl.f_cfg.1@.take(j as int),
            ),
        decreases fdecl.f_cfg.1.len() - j,
    {
        let ghost before = views(result@);
        assert(block_ok(ctxt@, fdecl.f_cfg.1@[j as int].1));
        result.push(
            compile_lbl_block(fname.as_str(), &fdecl.f_cfg.1[j].0, &ctxt, &fdecl.f_cfg.1[j].1),
        );
        assert(views(result@) =~= first + lbl_blocks_code(
            fname@,
            ctxt@,
            fdecl.f_cfg.1@.take(j as int + 1),
        ));
        j += 1;
    }
    assert(fdecl.f_cfg.1@.take(j as int) == fdecl.f_cfg.1@);
    result
}

/// The data items that the initial value `g` is stored as: a null and an
/// integer as one word, a global as a word that refers to its label, a
/// string as itself, an array or a struct as the items of its parts in
/// order, a cast as what is cast.
pub open spec fn ginit_data(m: Mangling, g: Ginit) -> Seq<DataView>
    decreases g,
{
    match g {
        Ginit::GNull => seq![DataView::Quad(ImmView::Lit(0))],
        Ginit::GGid(gid) => seq![DataView::Quad(ImmView::Lbl(mangled(m, gid@)))],
        Ginit::GInt(c) => seq![DataView::Quad(ImmView::Lit(c))],
        Ginit::GString(s) => seq![DataView::Asciz(s@)],
        Ginit::GArray(elems) => ginits_data(m, elems@),
        Ginit::GStruct(elems) => ginits_data(m, elems@),
        Ginit::GBitcast(_, g, _) => ginit_data(m, *g),
    }
}

/// The data items of the initial values `elems`, in order.
pub open spec fn ginits_data(m: Mangling, elems: Seq<(Ty, Ginit)>) -> Seq<DataView>
    decreases elems,
{
    if elems.len() == 0 {
        seq![]
    } else {
        ginits_data(m, elems.drop_last()) + ginit_data(m, elems.last().1)
    }
}

/// The data items of the initial values `elems`, in order.
fn compile_ginits(elems: &Vec<(Ty, Ginit)>, mangling: Mangling) -> (r: Vec<Data>)
    ensures
        views(r@) == ginits_data(mangling, elems@),
    decreases elems,
{
    let mut result: Vec<Data> = Vec::new();
    let mut i: usize = 0;
    assert(views(result@) =~= ginits_data(mangling, elems@.take(0)));
    while i < elems.len()
        invariant
            i <= elems.len(),
            views(result@) == ginits_data(mangling, elems@.take(i as int)),
        decreases elems.len() - i,
    {
        assert(elems@.take(i as int + 1).drop_last() == elems@.take(i as int));
        let mut items = compile_ginit(&elems[i].1, mangling);
        result.append(&mut items);
        i += 1;
    }
    assert(elems@.take(i as int) == elems@);
    result
}

/// The data items that the initial value `g` is stored as.
pub fn compile_ginit(g: &Ginit, mangling: Mangling) -> (r: Vec<Data>)
    ensures
        views(r@) == ginit_data(mangling, *g),
    decreases g,
{
    match g {
        Ginit::GNull => {
            let r = vec![Data::Quad(Imm::Lit(0))];
            assert(views(r@) =~= ginit_data(mangling, *g));
            r
        },
        Ginit::GGid(gid) => {
            let r = vec![Data::Quad(Imm::Lbl(mangle(mangling, gid.as_str())))];
            assert(views(r@) =~= ginit_data(mangling, *g));
            r
        },
        Ginit::GInt(c) => {
            let r = vec![Data::Quad(Imm::Lit(*c))];
            assert(views(r@) =~= ginit_data(mangling, *g));
            r
        },
        Ginit::GString(s) => {
            let r = vec![Data::Asciz(s.clone())];
            assert(views(r@) =~= ginit_data(mangling, *g));
            r
        },
        Ginit::GArray(elems) => compile_ginits(elems, mangling),
        Ginit::GStruct(elems) => compile_ginits(elems, mangling),
        Ginit::GBitcast(_t1, g, _t2) => compile_ginit(g, mangling),
    }
}

/// The data block of the global `gdecl` named `lbl`: exported under the
/// mangled name.
pub open spec fn gdecl_elem(m: Mangling, lbl: Seq<char>, gdecl: Gdecl) -> ElemView {
    ElemView { lbl: mangled(m, lbl), global: true, body: AsmView::Data(ginit_data(m, gdecl.1)) }
}

/// The data block of the global `gdecl` named `lbl`.
pub fn compile_gdecl(lbl: &str, gdecl: &Gdecl, mangling: Mangling) -> (r: Elem)
    ensures
        r@ == gdecl_elem(mangling, lbl@, *gdecl),
{
    let label = mangle(mangling, lbl);
    data(label.as_str(), compile_ginit(&gdecl.1, mangling))
}

/// The data blocks of the globals `gdecls`, in order.
pub open spec fn globals_code(m: Mangling, gdecls: Seq<(Gid, Gdecl)>) -> Seq<ElemView> {
    Seq::new(gdecls.len(), |i: int| gdecl_elem(m, gdecls[i].0@, gdecls[i].1))
}

/// The blocks of the functions `fdecls`, function after function.
pub open spec fn functions_code(tdecls: Seq<(Tid, Ty)>, m: Mangling, fdecls: Seq<(Gid, Fdecl)>) -> Seq<
    ElemView,
>
    decreases fdecls.len(),
{
    if fdecls.len() == 0 {
        seq![]
    } else {
        functions_code(tdecls, m, fdecls.drop_last()) + fdecl_code(
            tdecls,
            m,
            fdecls.last().0@,
            fdecls.last().1,
        )
    }
}

/// Whether one of the functions `fdecls` is named `program`.
pub open spec fn has_program(fdecls: Seq<(Gid, Fdecl)>) -> bool {
    exists|i: int| 0 <= i < fdecls.len() && (#[trigger] fdecls[i]).0@ == "program"@
}

/// The entry block made for a program whose entry function is named
/// `program`: `main` calls `program` and returns.
pub open spec fn program_wrapper(m: Mangling) -> ElemView {
    ElemView {
        lbl: mangled(m, "main"@),
        global: true,
        body: AsmView::Text(
            seq![ins1(Opcode::Callq, lbl(mangled(m, "program"@))), ins0(Opcode::Retq)],
        ),
    }
}

/// The program `prog` can be lowered: its named types are acyclic and each
/// of its functions can be lowered.
pub open spec fn prog_ok(m: Mangling, prog: llvm::Prog) -> bool {
    &&& acyclic(type_map(prog.tdecls@))
    &&& forall|i: int|
        0 <= i < prog.fdecls@.len() ==> fdecl_ok(prog.tdecls@, m, (#[trigger] prog.fdecls@[i]).1)
}

/// The machine program that `prog` lowers to: a data block for each global,
/// then the blocks of each function, both in declaration order, then the
/// entry block `main` where a function is named `program`.
pub open spec fn prog_code(m: Mangling, prog: llvm::Prog) -> Seq<ElemView> {
    globals_code(m, prog.gdecls@) + functions_code(prog.tdecls@, m, prog.fdecls@) + (
    if has_program(prog.fdecls@) {
        seq![program_wrapper(m)]
    } else {
        seq![]
    })
}

/// Whether one of the functions `fdecls` is named `program`.
fn any_program(fdecls: &Vec<(Gid, Fdecl)>) -> (r: bool)
    ensures
        r == has_program(fdecls@),
{
    let program: String = "program".to_owned();
    let mut i: usize = 0;
    while i < fdecls.len()
        invariant
            i <= fdecls.len(),
            program@ == "program"@,
            forall|k: int| 0 <= k < i ==> (#[trigger] fdecls@[k]).0@ != "program"@,
        decreases fdecls.len() - i,
    {
        if fdecls[i].0 == program {
            return true;
        }
        i += 1;
    }
    false
}

/// The machine program that `prog` lowers to.
pub fn compile_prog(prog: &llvm::Prog, mangling: Mangling) -> (r: Prog)
    requires
        prog_ok(mangling, *prog),
    ensures
        r@ == prog_code(mangling, *prog),
{
    let mut result: Vec<Elem> = Vec::new();
    let mut i: usize = 0;
    assert(views(result@) =~= globals_code(mangling, prog.gdecls@.take(0)));
    while i < prog.gdecls.len()
        invariant
            i <= prog.gdecls.len(),
            views(result@) == globals_code(mangling, prog.gdecls@.take(i as int)),
        decreases prog.gdecls.len() - i,
    {
        result.push(compile_gdecl(prog.gdecls[i].0.as_str(), &prog.gdecls[i].1, mangling));
        assert(views(result@) =~= globals_code(mangling, prog.gdecls@.take(i as int + 1)));
        i += 1;
    }
    assert(prog.gdecls@.take(i as int) == prog.gdecls@);
    let ghost globals = views(result@);
    let mut j: usize = 0;
    assert(views(result@) =~= globals + functions_code(
        prog.tdecls@,
        mangling,
        prog.fdecls@.take(0),
    ));
    while j < prog.fdecls.len()
        invariant
            j <= prog.fdecls.len(),
            prog_ok(mangling, *prog),
            views(result@) == globals + functions_code(
                prog.tdecls@,
                mangling,
                prog.fdecls@.take(j as int),
            ),
        decreases prog.fdecls.len() - j,
    {
        let ghost before = views(result@);
        assert(prog.fdecls@.take(j as int + 1).drop_last() == prog.fdecls@.take(j as int));
        assert(fdecl_ok(prog.tdecls@, mangling, prog.fdecls@[j as int].1));
        let mut elems = compile_fdecl(
            prog.tdecls.as_slice(),
            prog.fdecls[j].0.as_str(),
            &prog.fdecls[j].1,
            mangling,
        );
        result.append(&mut elems);
        assert(views(result@) =~= globals + functions_code(
            prog.tdecls@,
            mangling,
            prog.fdecls@.take(j as int + 1),
        ));
        j += 1;
    }
    assert(prog.fdecls@.take(j as int) == prog.fdecls@);
    if any_program(&prog.fdecls) {
        let label = mangle(mangling, "main");
        let mut code: Vec<Ins> = Vec::new();
        code.push(
            mk_ins1(Opcode::Callq, Operand::Imm(Imm::Lbl(mangle(mangling, "program")))),
        );
        code.push(mk_ins0(Opcode::Retq));
        assert(views(code@) =~= seq![
            ins1(Opcode::Callq, lbl(mangled(mangling, "program"@))),
            ins0(Opcode::Retq),
        ]);
        let wrapper = gtext(label.as_str(), code);
        result.push(wrapper);
    }
    let r = Prog(result);
    assert(r@ =~= prog_code(mangling, *prog));
    r
}

} // verus!
