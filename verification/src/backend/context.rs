//! What lowering a function needs to know: how names are mangled, where each
//! bound name lives on the stack, and what the declared types are.

use vstd::prelude::*;
use crate::seqs::views;
use vstd::hash_map::StringHashMap;
use crate::backend::types::TypeTable;
use crate::llvm::{Block, Cfg, Lbl, Ty, Uid};
use crate::x86::{Imm, ImmView, Ins, InsView, Opcode, Operand, OperandView, Reg};

verus! {

broadcast use crate::seqs::group_views;

/// How the target platform writes the names of globals and functions.
#[derive(Debug, Clone, Copy, PartialEq, Eq, Structural)]
pub enum Mangling {
    /// The name as it is.
    Plain,
    /// The name with an underscore before it.
    Underscore,
}

/// The label that stands for the global or function `s`.
pub open spec fn mangled(m: Mangling, s: Seq<char>) -> Seq<char> {
    match m {
        Mangling::Plain => s,
        Mangling::Underscore => seq!['_'] + s,
    }
}

/// The label that stands for the global or function `s`.
pub fn mangle(m: Mangling, s: &str) -> (r: String)
    ensures
        r@ == mangled(m, s@),
{
    match m {
        Mangling::Plain => s.to_owned(),
        Mangling::Underscore => {
            proof {
                reveal_strlit("_");
            }
            let mut r = "_".to_owned();
            r.append(s);
            assert(r@ =~= seq!['_'] + s@);
            r
        },
    }
}

/// The program-wide label of the block `lbl` of the function labelled
/// `fname`: the two joined by a dot.
pub open spec fn block_label(fname: Seq<char>, lbl: Seq<char>) -> Seq<char> {
    fname + seq!['.'] + lbl
}

/// The program-wide label of the block `lbl` of the function labelled
/// `fname`.
pub fn mk_lbl(fname: &str, lbl: &Lbl) -> (r: String)
    ensures
        r@ == block_label(fname@, lbl@),
{
    proof {
        reveal_strlit(".");
    }
    let mut r = fname.to_owned();
    r.append(".");
    r.append(lbl.as_str());
    assert(r@ =~= fname@ + seq!['.'] + lbl@);
    r
}

/// The instruction `opcode` without operands.
pub open spec fn ins0(opcode: Opcode) -> InsView {
    InsView { opcode, operands: seq![] }
}

/// The instruction `opcode a`.
pub open spec fn ins1(opcode: Opcode, a: OperandView) -> InsView {
    InsView { opcode, operands: seq![a] }
}

/// The instruction `opcode a, b`.
pub open spec fn ins2(opcode: Opcode, a: OperandView, b: OperandView) -> InsView {
    InsView { opcode, operands: seq![a, b] }
}

/// The literal immediate operand `i`.
pub open spec fn lit(i: i64) -> OperandView {
    OperandView::Imm(ImmView::Lit(i))
}

/// The literal immediate operand that holds the size `n`.
pub open spec fn size_lit(n: nat) -> OperandView {
    lit(n as i64)
}

/// The immediate operand that refers to the label `l`.
pub open spec fn lbl(l: Seq<char>) -> OperandView {
    OperandView::Imm(ImmView::Lbl(l))
}

/// The register operand `r`.
pub open spec fn reg(r: Reg) -> OperandView {
    OperandView::Reg(r)
}

/// The stack slot at `off` bytes from the frame base.
pub open spec fn slot(off: i64) -> OperandView {
    OperandView::Ind3(ImmView::Lit(off), Reg::Rbp)
}

/// The instruction `opcode` without operands.
pub fn mk_ins0(opcode: Opcode) -> (r: Ins)
    ensures
        r@ == ins0(opcode),
{
    let r = Ins { opcode, operands: Vec::new() };
    assert(r@.operands =~= seq![]);
    r
}

/// The instruction `opcode a`.
pub fn mk_ins1(opcode: Opcode, a: Operand) -> (r: Ins)
    ensures
        r@ == ins1(opcode, a@),
{
    let mut operands: Vec<Operand> = Vec::new();
    operands.push(a);
    let r = Ins { opcode, operands };
    assert(r@.operands =~= seq![a@]);
    r
}

/// The instruction `opcode a, b`.
pub fn mk_ins2(opcode: Opcode, a: Operand, b: Operand) -> (r: Ins)
    ensures
        r@ == ins2(opcode, a@, b@),
{
    let mut operands: Vec<Operand> = Vec::new();
    operands.push(a);
    operands.push(b);
    let r = Ins { opcode, operands };
    assert(r@.operands =~= seq![a@, b@]);
    r
}

/// The literal immediate operand `i`.
pub fn mk_lit(i: i64) -> (r: Operand)
    ensures
        r@ == lit(i),
{
    Operand::Imm(Imm::Lit(i))
}

/// The literal immediate operand that holds the size `n`.
pub fn mk_size_lit(n: usize) -> (r: Operand)
    requires
        n <= i64::MAX,
    ensures
        r@ == size_lit(n as nat),
{
    Operand::Imm(Imm::Lit(n as i64))
}

/// The stack slot at `off` bytes from the frame base.
pub fn mk_slot(off: i64) -> (r: Operand)
    ensures
        r@ == slot(off),
{
    Operand::Ind3(Imm::Lit(off), Reg::Rbp)
}

/// Where the calling convention hands over the `n`-th argument, counted
/// from 0: the first six in registers, the others on the caller's stack,
/// from 16 bytes above the frame base upwards in steps of 8.
pub open spec fn arg_slot(n: nat) -> OperandView {
    if n == 0 {
        reg(Reg::Rdi)
    } else if n == 1 {
        reg(Reg::Rsi)
    } else if n == 2 {
        reg(Reg::Rdx)
    } else if n == 3 {
        reg(Reg::Rcx)
    } else if n == 4 {
        reg(Reg::R08)
    } else if n == 5 {
        reg(Reg::R09)
    } else {
        OperandView::Ind3(ImmView::Lit((16 + 8 * (n - 6)) as i64), Reg::Rbp)
    }
}

/// Where the calling convention hands over the `n`-th argument.
pub fn arg_loc(n: usize) -> (r: Operand)
    requires
        16 + 8 * (n - 6) <= i64::MAX,
    ensures
        r@ == arg_slot(n as nat),
{
    if n == 0 {
        Operand::Reg(Reg::Rdi)
    } else if n == 1 {
        Operand::Reg(Reg::Rsi)
    } else if n == 2 {
        Operand::Reg(Reg::Rdx)
    } else if n == 3 {
        Operand::Reg(Reg::Rcx)
    } else if n == 4 {
        Operand::Reg(Reg::R08)
    } else if n == 5 {
        Operand::Reg(Reg::R09)
    } else {
        let k: u64 = (n - 6) as u64;
        Operand::Ind3(Imm::Lit((16 + 8 * k) as i64), Reg::Rbp)
    }
}

/// The names that the instructions of `b` bind, in order.
pub open spec fn block_uids(b: Block) -> Seq<Seq<char>> {
    Seq::new(b.insns@.len(), |i: int| b.insns@[i].0@)
}

/// The names that the instructions of `blocks` bind, block after block.
pub open spec fn blocks_uids(blocks: Seq<(Lbl, Block)>) -> Seq<Seq<char>>
    decreases blocks.len(),
{
    if blocks.len() == 0 {
        seq![]
    } else {
        blocks_uids(blocks.drop_last()) + block_uids(blocks.last().1)
    }
}

/// The names that a function binds, in binding order: its parameters, what
/// the entry block binds, then what each labelled block binds.
pub open spec fn bound_uids(params: Seq<Uid>, cfg: Cfg) -> Seq<Seq<char>> {
    views(params) + block_uids(cfg.0) + blocks_uids(cfg.1@)
}

/// The stack slots of the names `uids`: the `k`-th name, counted from 1,
/// lives `8k` bytes below the frame base. Of a name bound twice the later
/// slot counts.
pub open spec fn layout_of(uids: Seq<Seq<char>>) -> Map<Seq<char>, i64>
    decreases uids.len(),
{
    if uids.len() == 0 {
        Map::empty()
    } else {
        layout_of(uids.drop_last()).insert(uids.last(), (-8 * uids.len()) as i64)
    }
}

/// `m` with slots for the names `uids` added, where `k` names have slots
/// already.
pub open spec fn layout_from(m: Map<Seq<char>, i64>, k: nat, uids: Seq<Seq<char>>) -> Map<
    Seq<char>,
    i64,
>
    decreases uids.len(),
{
    if uids.len() == 0 {
        m
    } else {
        layout_from(m, k, uids.drop_last()).insert(uids.last(), (-8 * (k + uids.len())) as i64)
    }
}

/// Laying names out from nothing is the layout of the names.
pub proof fn lemma_layout_from_empty(uids: Seq<Seq<char>>)
    ensures
        layout_from(Map::empty(), 0, uids) == layout_of(uids),
    decreases uids.len(),
{
    if uids.len() > 0 {
        lemma_layout_from_empty(uids.drop_last());
    }
}

/// Laying out `a` and then `b` is laying out `a + b`.
pub proof fn lemma_layout_from_add(
    m: Map<Seq<char>, i64>,
    k: nat,
    a: Seq<Seq<char>>,
    b: Seq<Seq<char>>,
)
    ensures
        layout_from(layout_from(m, k, a), k + a.len(), b) == layout_from(m, k, a + b),
    decreases b.len(),
{
    if b.len() == 0 {
        assert(a + b == a);
    } else {
        lemma_layout_from_add(m, k, a, b.drop_last());
        assert((a + b).drop_last() == a + b.drop_last());
    }
}

/// Gives the parameters `params` their slots, the first slots of a frame.
fn place_params(layout: &mut StringHashMap<i64>, params: &[Uid])
    requires
        8 * params.len() <= i64::MAX,
    ensures
        final(layout)@ == layout_from(old(layout)@, 0, views(params@)),
{
    let mut i: usize = 0;
    while i < params.len()
        invariant
            i <= params.len(),
            8 * params.len() <= i64::MAX,
            layout@ == layout_from(old(layout)@, 0, views(params@.take(i as int))),
        decreases params.len() - i,
    {
        assert(params@.take(i as int + 1).drop_last() == params@.take(i as int));
        let off: i64 = -(((i as u64 + 1) * 8) as i64);
        layout.insert(params[i].clone(), off);
        i += 1;
    }
    assert(params@.take(i as int) == params@);
}

/// Gives the names that `blk` binds their slots, after the `k` slots given
/// before.
fn place_block(layout: &mut StringHashMap<i64>, k: u64, blk: &Block) -> (k2: u64)
    requires
        8 * (k + blk.insns.len()) <= i64::MAX,
    ensures
        final(layout)@ == layout_from(old(layout)@, k as nat, block_uids(*blk)),
        k2 == k + blk.insns.len(),
{
    let mut i: usize = 0;
    while i < blk.insns.len()
        invariant
            i <= blk.insns.len(),
            8 * (k + blk.insns.len()) <= i64::MAX,
            layout@ == layout_from(old(layout)@, k as nat, block_uids(*blk).take(i as int)),
        decreases blk.insns.len() - i,
    {
        assert(block_uids(*blk).take(i as int + 1).drop_last() == block_uids(*blk).take(i as int));
        let off: i64 = -(((k + i as u64 + 1) * 8) as i64);
        layout.insert(blk.insns[i].0.clone(), off);
        i += 1;
    }
    assert(block_uids(*blk).take(i as int) == block_uids(*blk));
    k + i as u64
}

/// The stack layout of a function with the parameters `args` and the body
/// `cfg`: one slot for each name, in binding order.
pub fn stack_layout(args: &[Uid], cfg: &Cfg) -> (r: StringHashMap<i64>)
    requires
        8 * bound_uids(args@, *cfg).len() <= i64::MAX,
    ensures
        r@ == layout_of(bound_uids(args@, *cfg)),
{
    let mut layout: StringHashMap<i64> = StringHashMap::new();
    place_params(&mut layout, args);
    let mut k: u64 = args.len() as u64;
    k = place_block(&mut layout, k, &cfg.0);
    proof {
        lemma_layout_from_add(Map::empty(), 0, views(args@), block_uids(cfg.0));
    }
    let ghost head = views(args@) + block_uids(cfg.0);
    let mut i: usize = 0;
    while i < cfg.1.len()
        invariant
            i <= cfg.1.len(),
            8 * bound_uids(args@, *cfg).len() <= i64::MAX,
            head == views(args@) + block_uids(cfg.0),
            k == head.len() + blocks_uids(cfg.1@.take(i as int)).len(),
            layout@ == layout_from(Map::empty(), 0, head + blocks_uids(cfg.1@.take(i as int))),
        decreases cfg.1.len() - i,
    {
        proof {
            assert(cfg.1@.take(i as int + 1).drop_last() == cfg.1@.take(i as int));
            lemma_blocks_uids_prefix(cfg.1@, i as int + 1);
            lemma_layout_from_add(
                Map::empty(),
                0,
                head + blocks_uids(cfg.1@.take(i as int)),
                block_uids(cfg.1@[i as int].1),
            );
            assert(head + blocks_uids(cfg.1@.take(i as int + 1)) == head + blocks_uids(
                cfg.1@.take(i as int),
            ) + block_uids(cfg.1@[i as int].1));
        }
        k = place_block(&mut layout, k, &cfg.1[i].1);
        i += 1;
    }
    proof {
        assert(cfg.1@.take(i as int) == cfg.1@);
        lemma_layout_from_empty(bound_uids(args@, *cfg));
    }
    layout
}

/// The names bound by the first `n` blocks are among the names bound by all.
pub proof fn lemma_blocks_uids_prefix(blocks: Seq<(Lbl, Block)>, n: int)
    requires
        0 <= n <= blocks.len(),
    ensures
        blocks_uids(blocks.take(n)).len() <= blocks_uids(blocks).len(),
    decreases blocks.len(),
{
    if n == blocks.len() {
        assert(blocks.take(n) == blocks);
    } else {
        lemma_blocks_uids_prefix(blocks.drop_last(), n);
        assert(blocks.drop_last().take(n) == blocks.take(n));
    }
}

/// What lowering the body of one function goes by.
pub struct Ctxt<'a> {
    /// The declared types.
    pub tdecls: TypeTable<'a>,
    /// For each bound name the offset of its slot from the frame base.
    pub layout: StringHashMap<i64>,
    /// How the names of globals and functions are written.
    pub mangling: Mangling,
}

/// The value of a [`Ctxt`].
pub struct CtxtView {
    pub tdecls: Map<Seq<char>, Ty>,
    pub layout: Map<Seq<char>, i64>,
    pub mangling: Mangling,
}

impl<'a> View for Ctxt<'a> {
    type V = CtxtView;

    open spec fn view(&self) -> CtxtView {
        CtxtView { tdecls: self.tdecls@, layout: self.layout@, mangling: self.mangling }
    }
}

} // verus!
