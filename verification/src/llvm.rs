//! The source program: typed values, instructions, terminators, blocks,
//! functions and global initialisers.

use vstd::prelude::*;

verus! {

/// The name of a value bound inside a function.
pub type Uid = String;

/// The name of a global value or of a function.
pub type Gid = String;

/// The name of a type.
pub type Tid = String;

/// The name of a block inside a function.
pub type Lbl = String;

/// A type of the source program.
#[derive(Debug, PartialEq, Eq)]
pub enum Ty {
    Void,
    I1,
    I8,
    I64,
    Ptr(Box<Ty>),
    Struct(Vec<Ty>),
    Array(usize, Box<Ty>),
    Fun(Vec<Ty>, Box<Ty>),
    /// A type known by name; the program's type declarations say what it is.
    Namedt(Tid),
}

/// A copy of `ts`, item by item.
fn clone_tys(ts: &Vec<Ty>) -> (r: Vec<Ty>)
    ensures
        same_tys(r@, ts@),
    decreases ts,
{
    let mut r: Vec<Ty> = Vec::new();
    let mut i: usize = 0;
    assert(ts@.take(0) =~= seq![]);
    while i < ts.len()
        invariant
            i <= ts.len(),
            same_tys(r@, ts@.take(i as int)),
        decreases ts.len() - i,
    {
        let ghost before = r@;
        r.push(ts[i].clone());
        assert(r@.drop_last() == before);
        assert(ts@.take(i as int + 1).drop_last() == ts@.take(i as int));
        i += 1;
    }
    assert(ts@.take(i as int) == ts@);
    r
}

impl Clone for Ty {
    fn clone(&self) -> (r: Self)
        ensures
            same_ty(r, *self),
        decreases self,
    {
        match self {
            Ty::Void => Ty::Void,
            Ty::I1 => Ty::I1,
            Ty::I8 => Ty::I8,
            Ty::I64 => Ty::I64,
            Ty::Ptr(t) => Ty::Ptr(Box::new((**t).clone())),
            Ty::Struct(ts) => Ty::Struct(clone_tys(ts)),
            Ty::Array(n, t) => Ty::Array(*n, Box::new((**t).clone())),
            Ty::Fun(ts, t) => Ty::Fun(clone_tys(ts), Box::new((**t).clone())),
            Ty::Namedt(n) => Ty::Namedt(n.clone()),
        }
    }
}

/// Whether `a` and `b` are the same type: of the same form, with the same
/// names and numbers, and with the same types in the same places.
pub open spec fn same_ty(a: Ty, b: Ty) -> bool
    decreases a,
{
    match (a, b) {
        (Ty::Void, Ty::Void) => true,
        (Ty::I1, Ty::I1) => true,
        (Ty::I8, Ty::I8) => true,
        (Ty::I64, Ty::I64) => true,
        (Ty::Ptr(x), Ty::Ptr(y)) => same_ty(*x, *y),
        (Ty::Struct(xs), Ty::Struct(ys)) => same_tys(xs@, ys@),
        (Ty::Array(n, x), Ty::Array(m, y)) => n == m && same_ty(*x, *y),
        (Ty::Fun(xs, x), Ty::Fun(ys, y)) => same_tys(xs@, ys@) && same_ty(*x, *y),
        (Ty::Namedt(s), Ty::Namedt(t)) => s@ == t@,
        _ => false,
    }
}

/// Whether `a` and `b` are the same types, one by one.
pub open spec fn same_tys(a: Seq<Ty>, b: Seq<Ty>) -> bool
    decreases a,
{
    a.len() == b.len() && (a.len() == 0 || (same_tys(a.drop_last(), b.drop_last()) && same_ty(
        a.last(),
        b.last(),
    )))
}

/// The type of a function: the types of its arguments and of its result.
pub type Fty = (Vec<Ty>, Ty);

/// A value that an instruction reads.
#[derive(Debug, Clone, PartialEq, Eq)]
pub enum Operand {
    Null,
    Const(i64),
    Gid(Gid),
    Id(Uid),
}

/// A binary operation.
#[derive(Debug, Clone, Copy, PartialEq, Eq)]
pub enum Bop {
    Add,
    Sub,
    Mul,
    Shl,
    Lshr,
    Ashr,
    And,
    Or,
    Xor,
}

/// A comparison.
#[derive(Debug, Clone, Copy, PartialEq, Eq)]
pub enum Cnd {
    Eq,
    Ne,
    Slt,
    Sle,
    Sgt,
    Sge,
}

/// An instruction; the block that holds it binds its result to a name.
#[derive(Debug, Clone, PartialEq, Eq)]
pub enum Insn {
    Binop(Bop, Ty, Operand, Operand),
    Alloca(Ty),
    Load(Ty, Operand),
    Store(Ty, Operand, Operand),
    Icmp(Cnd, Ty, Operand, Operand),
    Call(Ty, Operand, Vec<(Ty, Operand)>),
    Bitcast(Ty, Operand, Ty),
    Gep(Ty, Operand, Vec<Operand>),
}

/// The way a block ends.
#[derive(Debug, Clone, PartialEq, Eq)]
pub enum Terminator {
    Ret(Ty, Option<Operand>),
    Br(Lbl),
    Cbr(Operand, Lbl, Lbl),
}

/// A basic block: named instructions in order, then one terminator.
#[derive(Debug, PartialEq, Eq)]
pub struct Block {
    pub insns: Vec<(Uid, Insn)>,
    pub term: (Uid, Terminator),
}

/// A control-flow graph: the entry block, then the labelled blocks.
pub type Cfg = (Block, Vec<(Lbl, Block)>);

/// A function: its type, the names of its parameters and its body.
#[derive(Debug, PartialEq, Eq)]
pub struct Fdecl {
    pub f_ty: Fty,
    pub f_param: Vec<Uid>,
    pub f_cfg: Cfg,
}

/// The initial value of a global.
#[derive(Debug, PartialEq, Eq)]
pub enum Ginit {
    GNull,
    GGid(Gid),
    GInt(i64),
    GString(String),
    GArray(Vec<(Ty, Ginit)>),
    GStruct(Vec<(Ty, Ginit)>),
    GBitcast(Ty, Box<Ginit>, Ty),
}

/// A copy of `gs`, item by item.
fn clone_ginits(gs: &Vec<(Ty, Ginit)>) -> (r: Vec<(Ty, Ginit)>)
    ensures
        same_ginits(r@, gs@),
    decreases gs,
{
    let mut r: Vec<(Ty, Ginit)> = Vec::new();
    let mut i: usize = 0;
    assert(gs@.take(0) =~= seq![]);
    while i < gs.len()
        invariant
            i <= gs.len(),
            same_ginits(r@, gs@.take(i as int)),
        decreases gs.len() - i,
    {
        let ghost before = r@;
        r.push((gs[i].0.clone(), gs[i].1.clone()));
        assert(r@.drop_last() == before);
        assert(gs@.take(i as int + 1).drop_last() == gs@.take(i as int));
        i += 1;
    }
    assert(gs@.take(i as int) == gs@);
    r
}

impl Clone for Ginit {
    fn clone(&self) -> (r: Self)
        ensures
            same_ginit(r, *self),
        decreases self,
    {
        match self {
            Ginit::GNull => Ginit::GNull,
            Ginit::GGid(g) => Ginit::GGid(g.clone()),
            Ginit::GInt(i) => Ginit::GInt(*i),
            Ginit::GString(s) => Ginit::GString(s.clone()),
            Ginit::GArray(gs) => Ginit::GArray(clone_ginits(gs)),
            Ginit::GStruct(gs) => Ginit::GStruct(clone_ginits(gs)),
            Ginit::GBitcast(t1, g, t2) => Ginit::GBitcast(
                t1.clone(),
                Box::new((**g).clone()),
                t2.clone(),
            ),
        }
    }
}

/// Whether `a` and `b` are the same initial value: of the same form, with
/// the same names, numbers and strings, and with the same types and the
/// same initial values in the same places.
pub open spec fn same_ginit(a: Ginit, b: Ginit) -> bool
    decreases a,
{
    match (a, b) {
        (Ginit::GNull, Ginit::GNull) => true,
        (Ginit::GGid(g), Ginit::GGid(h)) => g@ == h@,
        (Ginit::GInt(i), Ginit::GInt(j)) => i == j,
        (Ginit::GString(s), Ginit::GString(t)) => s@ == t@,
        (Ginit::GArray(xs), Ginit::GArray(ys)) => same_ginits(xs@, ys@),
        (Ginit::GStruct(xs), Ginit::GStruct(ys)) => same_ginits(xs@, ys@),
        (Ginit::GBitcast(t1, x, t2), Ginit::GBitcast(u1, y, u2)) => same_ty(t1, u1) && same_ginit(
            *x,
            *y,
        ) && same_ty(t2, u2),
        _ => false,
    }
}

/// Whether `a` and `b` are the same typed initial values, one by one.
pub open spec fn same_ginits(a: Seq<(Ty, Ginit)>, b: Seq<(Ty, Ginit)>) -> bool
    decreases a,
{
    a.len() == b.len() && (a.len() == 0 || (same_ginits(a.drop_last(), b.drop_last()) && same_ty(
        a.last().0,
        b.last().0,
    ) && same_ginit(a.last().1, b.last().1)))
}

/// A global: its type and its initial value.
pub type Gdecl = (Ty, Ginit);

/// A program: type, global, function and external declarations, each list in
/// declaration order.
#[derive(Debug, Clone, PartialEq, Eq)]
pub struct Prog {
    pub tdecls: Vec<(Tid, Ty)>,
    pub gdecls: Vec<(Gid, Gdecl)>,
    pub fdecls: Vec<(Gid, Fdecl)>,
    pub edecls: Vec<(Gid, Ty)>,
}

impl Prog {
    /// The program without declarations.
    pub fn new() -> (r: Self)
        ensures
            r.tdecls@.len() == 0,
            r.gdecls@.len() == 0,
            r.fdecls@.len() == 0,
            r.edecls@.len() == 0,
    {
        Prog { tdecls: Vec::new(), gdecls: Vec::new(), fdecls: Vec::new(), edecls: Vec::new() }
    }
}

impl Default for Prog {
    fn default() -> (r: Self)
        ensures
            r.tdecls@.len() == 0,
            r.gdecls@.len() == 0,
            r.fdecls@.len() == 0,
            r.edecls@.len() == 0,
    {
        Prog::new()
    }
}

impl Clone for Block {
    fn clone(&self) -> Self {
        Block { insns: self.insns.clone(), term: (self.term.0.clone(), self.term.1.clone()) }
    }
}

impl Clone for Fdecl {
    fn clone(&self) -> Self {
        Fdecl {
            f_ty: (self.f_ty.0.clone(), self.f_ty.1.clone()),
            f_param: self.f_param.clone(),
            f_cfg: (self.f_cfg.0.clone(), self.f_cfg.1.clone()),
        }
    }
}

impl Block {
    /// The block of the instructions `insns` that ends in `term`.
    pub fn new(insns: Vec<(Uid, Insn)>, term: (Uid, Terminator)) -> (r: Self)
        ensures
            r.insns == insns,
            r.term == term,
    {
        Block { insns, term }
    }
}

impl Fdecl {
    /// The function of type `f_ty` with the parameters `f_param` and the body
    /// `f_cfg`.
    pub fn new(f_ty: Fty, f_param: Vec<Uid>, f_cfg: Cfg) -> (r: Self)
        ensures
            r.f_ty == f_ty,
            r.f_param == f_param,
            r.f_cfg == f_cfg,
    {
        Fdecl { f_ty, f_param, f_cfg }
    }
}

} // verus!
