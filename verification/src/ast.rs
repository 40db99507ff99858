//! The syntax tree of the source language.

use vstd::prelude::*;

verus! {

/// A range of positions in the source text.
#[derive(Debug, Clone, PartialEq, Eq)]
pub struct RangeTy {
    pub start: i64,
    pub end: i64,
}

/// A piece of syntax with the place it was read from.
#[derive(Debug, Clone, PartialEq, Eq)]
pub struct Node<T> {
    pub elt: T,
    pub loc: RangeTy,
}

/// A name.
pub type IdTy = String;

/// A type of a value.
#[derive(Debug, PartialEq, Eq)]
pub enum Ty {
    TBool,
    TInt,
    /// A reference that is never null.
    TRef(RefTy),
    /// A reference that may be null.
    TNullRef(RefTy),
}

/// What a reference refers to.
#[derive(Debug, PartialEq, Eq)]
pub enum RefTy {
    RString,
    RArray(Box<Ty>),
    RFun(Vec<Ty>, Box<RetTy>),
    RStruct(IdTy),
}

/// What a function returns.
#[derive(Debug, PartialEq, Eq)]
pub enum RetTy {
    RetVoid,
    RetVal(Box<Ty>),
}

/// The value of a [`Ty`].
pub enum TyView {
    TBool,
    TInt,
    TRef(RefTyView),
    TNullRef(RefTyView),
}

/// The value of a [`RefTy`].
pub enum RefTyView {
    RString,
    RArray(Box<TyView>),
    RFun(Seq<TyView>, Box<RetTyView>),
    RStruct(Seq<char>),
}

/// The value of a [`RetTy`].
pub enum RetTyView {
    RetVoid,
    RetVal(Box<TyView>),
}

/// The value of the type `t`.
pub open spec fn ty_view(t: Ty) -> TyView
    decreases t,
{
    match t {
        Ty::TBool => TyView::TBool,
        Ty::TInt => TyView::TInt,
        Ty::TRef(r) => TyView::TRef(ref_view(r)),
        Ty::TNullRef(r) => TyView::TNullRef(ref_view(r)),
    }
}

/// The value of the reference type `r`.
pub open spec fn ref_view(r: RefTy) -> RefTyView
    decreases r,
{
    match r {
        RefTy::RString => RefTyView::RString,
        RefTy::RArray(t) => RefTyView::RArray(Box::new(ty_view(*t))),
        RefTy::RFun(args, ret) => RefTyView::RFun(tys_view(args@), Box::new(ret_view(*ret))),
        RefTy::RStruct(id) => RefTyView::RStruct(id@),
    }
}

/// The value of the return type `r`.
pub open spec fn ret_view(r: RetTy) -> RetTyView
    decreases r,
{
    match r {
        RetTy::RetVoid => RetTyView::RetVoid,
        RetTy::RetVal(t) => RetTyView::RetVal(Box::new(ty_view(*t))),
    }
}

/// The values of the types `ts`, in order.
pub open spec fn tys_view(ts: Seq<Ty>) -> Seq<TyView>
    decreases ts,
{
    if ts.len() == 0 {
        seq![]
    } else {
        tys_view(ts.drop_last()).push(ty_view(ts.last()))
    }
}

impl View for Ty {
    type V = TyView;

    open spec fn view(&self) -> TyView {
        ty_view(*self)
    }
}

impl View for RefTy {
    type V = RefTyView;

    open spec fn view(&self) -> RefTyView {
        ref_view(*self)
    }
}

impl View for RetTy {
    type V = RetTyView;

    open spec fn view(&self) -> RetTyView {
        ret_view(*self)
    }
}

/// A copy of `ts`, item by item.
pub fn clone_tys(ts: &Vec<Ty>) -> (r: Vec<Ty>)
    ensures
        tys_view(r@) == tys_view(ts@),
    decreases ts,
{
    let mut r: Vec<Ty> = Vec::new();
    let mut i: usize = 0;
    assert(ts@.take(0) =~= r@);
    while i < ts.len()
        invariant
            i <= ts.len(),
            tys_view(r@) == tys_view(ts@.take(i as int)),
        decreases ts.len() - i,
    {
        assert(ts@.take(i as int + 1).drop_last() == ts@.take(i as int));
        let ghost before = r@;
        r.push(ts[i].clone());
        assert(r@.drop_last() == before);
        i += 1;
    }
    assert(ts@.take(i as int) == ts@);
    r
}

impl Clone for Ty {
    fn clone(&self) -> (r: Self)
        ensures
            r@ == self@,
        decreases self,
    {
        match self {
            Ty::TBool => Ty::TBool,
            Ty::TInt => Ty::TInt,
            Ty::TRef(rt) => Ty::TRef(rt.clone()),
            Ty::TNullRef(rt) => Ty::TNullRef(rt.clone()),
        }
    }
}

impl Clone for RefTy {
    fn clone(&self) -> (r: Self)
        ensures
            r@ == self@,
        decreases self,
    {
        match self {
            RefTy::RString => RefTy::RString,
            RefTy::RArray(t) => RefTy::RArray(Box::new((**t).clone())),
            RefTy::RFun(args, ret) => RefTy::RFun(clone_tys(args), Box::new((**ret).clone())),
            RefTy::RStruct(id) => RefTy::RStruct(id.clone()),
        }
    }
}

impl Clone for RetTy {
    fn clone(&self) -> (r: Self)
        ensures
            r@ == self@,
        decreases self,
    {
        match self {
            RetTy::RetVoid => RetTy::RetVoid,
            RetTy::RetVal(t) => RetTy::RetVal(Box::new((**t).clone())),
        }
    }
}

/// A unary operator.
#[derive(Debug, Clone, Copy, PartialEq, Eq)]
pub enum UnOp {
    Neg,
    LogNot,
    BitNot,
}

/// A binary operator.
#[derive(Debug, Clone, Copy, PartialEq, Eq)]
pub enum BinOp {
    Add,
    Sub,
    Mul,
    Eq,
    Neq,
    Lt,
    Lte,
    Gt,
    Gte,
    And,
    Or,
    IAnd,
    IOr,
    Shl,
    Shr,
    Sar,
}

/// An expression.
#[derive(Debug, PartialEq, Eq)]
pub enum Exp {
    CNull(RefTy),
    CBool(bool),
    CInt(i64),
    CStr(String),
    CArr(Ty, Vec<Node<Exp>>),
    NewArr(Ty, Box<Node<Exp>>),
    Id(IdTy),
    Index(Box<Node<Exp>>, Box<Node<Exp>>),
    Call(Box<Node<Exp>>, Vec<Node<Exp>>),
    Bop(BinOp, Box<Node<Exp>>, Box<Node<Exp>>),
    Uop(UnOp, Box<Node<Exp>>),
}

/// A copy of the expression `e` at its place.
fn clone_exp_node(e: &Node<Exp>) -> (r: Node<Exp>)
    ensures
        same_exp_node(r, *e),
    decreases e,
{
    Node { elt: e.elt.clone(), loc: RangeTy { start: e.loc.start, end: e.loc.end } }
}

/// A copy of `es`, item by item.
fn clone_exps(es: &Vec<Node<Exp>>) -> (r: Vec<Node<Exp>>)
    ensures
        same_exps(r@, es@),
    decreases es,
{
    let mut r: Vec<Node<Exp>> = Vec::new();
    let mut i: usize = 0;
    assert(es@.take(0) =~= seq![]);
    while i < es.len()
        invariant
            i <= es.len(),
            same_exps(r@, es@.take(i as int)),
        decreases es.len() - i,
    {
        let ghost before = r@;
        r.push(clone_exp_node(&es[i]));
        assert(r@.drop_last() == before);
        assert(es@.take(i as int + 1).drop_last() == es@.take(i as int));
        i += 1;
    }
    assert(es@.take(i as int) == es@);
    r
}

impl Clone for Exp {
    fn clone(&self) -> (r: Self)
        ensures
            same_exp(r, *self),
        decreases self,
    {
        match self {
            Exp::CNull(r) => Exp::CNull(r.clone()),
            Exp::CBool(b) => Exp::CBool(*b),
            Exp::CInt(i) => Exp::CInt(*i),
            Exp::CStr(s) => Exp::CStr(s.clone()),
            Exp::CArr(t, es) => Exp::CArr(t.clone(), clone_exps(es)),
            Exp::NewArr(t, n) => Exp::NewArr(t.clone(), Box::new(clone_exp_node(n))),
            Exp::Id(x) => Exp::Id(x.clone()),
            Exp::Index(a, i) => Exp::Index(
                Box::new(clone_exp_node(a)),
                Box::new(clone_exp_node(i)),
            ),
            Exp::Call(f, args) => Exp::Call(Box::new(clone_exp_node(f)), clone_exps(args)),
            Exp::Bop(op, l, r) => Exp::Bop(
                *op,
                Box::new(clone_exp_node(l)),
                Box::new(clone_exp_node(r)),
            ),
            Exp::Uop(op, x) => Exp::Uop(*op, Box::new(clone_exp_node(x))),
        }
    }
}

/// Whether `a` and `b` are the same expression: of the same form, with the
/// same constants, names, operators and types, and with the same
/// expressions at the same places of the text in the same places.
pub open spec fn same_exp(a: Exp, b: Exp) -> bool
    decreases a,
{
    match (a, b) {
        (Exp::CNull(r), Exp::CNull(q)) => r@ == q@,
        (Exp::CBool(x), Exp::CBool(y)) => x == y,
        (Exp::CInt(i), Exp::CInt(j)) => i == j,
        (Exp::CStr(s), Exp::CStr(t)) => s@ == t@,
        (Exp::CArr(t, xs), Exp::CArr(u, ys)) => t@ == u@ && same_exps(xs@, ys@),
        (Exp::NewArr(t, n), Exp::NewArr(u, m)) => t@ == u@ && same_exp_node(*n, *m),
        (Exp::Id(x), Exp::Id(y)) => x@ == y@,
        (Exp::Index(x, i), Exp::Index(y, j)) => same_exp_node(*x, *y) && same_exp_node(*i, *j),
        (Exp::Call(f, xs), Exp::Call(g, ys)) => same_exp_node(*f, *g) && same_exps(xs@, ys@),
        (Exp::Bop(o, l, r), Exp::Bop(p, m, q)) => o == p && same_exp_node(*l, *m)
            && same_exp_node(*r, *q),
        (Exp::Uop(o, x), Exp::Uop(p, y)) => o == p && same_exp_node(*x, *y),
        _ => false,
    }
}

/// Whether `a` and `b` are the same expression at the same place of the
/// text.
pub open spec fn same_exp_node(a: Node<Exp>, b: Node<Exp>) -> bool
    decreases a,
{
    same_exp(a.elt, b.elt) && a.loc == b.loc
}

/// Whether `a` and `b` are the same expressions at the same places, one by
/// one.
pub open spec fn same_exps(a: Seq<Node<Exp>>, b: Seq<Node<Exp>>) -> bool
    decreases a,
{
    a.len() == b.len() && (a.len() == 0 || (same_exps(a.drop_last(), b.drop_last())
        && same_exp_node(a.last(), b.last())))
}

/// A field of a struct value with the expression that gives it.
#[derive(Debug, Clone)]
pub struct CField {
    pub cf_id: IdTy,
    pub cf_node: Node<Exp>,
}

/// The declaration of a variable with the expression that gives its first
/// value.
#[derive(Debug, Clone)]
pub struct VDecl {
    pub vd_id: IdTy,
    pub vd_node: Node<Exp>,
}

/// A statement.
#[derive(Debug)]
pub enum Stmt {
    Assn(Node<Exp>, Node<Exp>),
    Decl(VDecl),
    Ret(Option<Node<Exp>>),
    SCall(Node<Exp>, Vec<Node<Exp>>),
    If(Node<Exp>, Vec<Node<Stmt>>, Vec<Node<Stmt>>),
    For(Vec<VDecl>, Option<Node<Exp>>, Option<Box<Node<Stmt>>>, Vec<Node<Stmt>>),
    While(Node<Exp>, Vec<Node<Stmt>>),
}

/// A copy of the statement `s` at its place.
fn clone_stmt_node(s: &Node<Stmt>) -> (r: Node<Stmt>)
    ensures
        same_stmt_node(r, *s),
    decreases s,
{
    Node { elt: s.elt.clone(), loc: RangeTy { start: s.loc.start, end: s.loc.end } }
}

/// A copy of `b`, item by item.
fn clone_stmts(b: &Vec<Node<Stmt>>) -> (r: Vec<Node<Stmt>>)
    ensures
        same_stmts(r@, b@),
    decreases b,
{
    let mut r: Vec<Node<Stmt>> = Vec::new();
    let mut i: usize = 0;
    assert(b@.take(0) =~= seq![]);
    while i < b.len()
        invariant
            i <= b.len(),
            same_stmts(r@, b@.take(i as int)),
        decreases b.len() - i,
    {
        let ghost before = r@;
        r.push(clone_stmt_node(&b[i]));
        assert(r@.drop_last() == before);
        assert(b@.take(i as int + 1).drop_last() == b@.take(i as int));
        i += 1;
    }
    assert(b@.take(i as int) == b@);
    r
}

/// A copy of `ds`, item by item.
fn clone_vdecls(ds: &Vec<VDecl>) -> (r: Vec<VDecl>)
    ensures
        same_vdecls(r@, ds@),
{
    let mut r: Vec<VDecl> = Vec::new();
    let mut i: usize = 0;
    assert(ds@.take(0) =~= seq![]);
    while i < ds.len()
        invariant
            i <= ds.len(),
            same_vdecls(r@, ds@.take(i as int)),
        decreases ds.len() - i,
    {
        let ghost before = r@;
        r.push(VDecl { vd_id: ds[i].vd_id.clone(), vd_node: clone_exp_node(&ds[i].vd_node) });
        assert(r@.drop_last() == before);
        assert(ds@.take(i as int + 1).drop_last() == ds@.take(i as int));
        i += 1;
    }
    assert(ds@.take(i as int) == ds@);
    r
}

impl Clone for Stmt {
    fn clone(&self) -> (r: Self)
        ensures
            same_stmt(r, *self),
        decreases self,
    {
        match self {
            Stmt::Assn(l, r) => Stmt::Assn(clone_exp_node(l), clone_exp_node(r)),
            Stmt::Decl(vd) => Stmt::Decl(
                VDecl { vd_id: vd.vd_id.clone(), vd_node: clone_exp_node(&vd.vd_node) },
            ),
            Stmt::Ret(v) => Stmt::Ret(
                match v {
                    Some(e) => Some(clone_exp_node(e)),
                    None => None,
                },
            ),
            Stmt::SCall(f, args) => Stmt::SCall(clone_exp_node(f), clone_exps(args)),
            Stmt::If(c, b1, b2) => Stmt::If(clone_exp_node(c), clone_stmts(b1), clone_stmts(b2)),
            Stmt::For(vds, c, upd, body) => Stmt::For(
                clone_vdecls(vds),
                match c {
                    Some(e) => Some(clone_exp_node(e)),
                    None => None,
                },
                match upd {
                    Some(u) => Some(Box::new(clone_stmt_node(u))),
                    None => None,
                },
                clone_stmts(body),
            ),
            Stmt::While(c, body) => Stmt::While(clone_exp_node(c), clone_stmts(body)),
        }
    }
}

/// Whether `a` and `b` are the same declaration: of the same name, with the
/// same expression.
pub open spec fn same_vdecl(a: VDecl, b: VDecl) -> bool {
    a.vd_id@ == b.vd_id@ && same_exp_node(a.vd_node, b.vd_node)
}

/// Whether `a` and `b` are the same declarations, one by one.
pub open spec fn same_vdecls(a: Seq<VDecl>, b: Seq<VDecl>) -> bool
    decreases a.len(),
{
    a.len() == b.len() && (a.len() == 0 || (same_vdecls(a.drop_last(), b.drop_last())
        && same_vdecl(a.last(), b.last())))
}

/// Whether `a` and `b` are both no expression, or the same expression at
/// the same place.
pub open spec fn same_opt_exp(a: Option<Node<Exp>>, b: Option<Node<Exp>>) -> bool {
    match (a, b) {
        (Some(x), Some(y)) => same_exp_node(x, y),
        (None, None) => true,
        _ => false,
    }
}

/// Whether `a` and `b` are the same statement: of the same form, with the
/// same expressions and declarations, and with the same statements at the
/// same places of the text in the same places.
pub open spec fn same_stmt(a: Stmt, b: Stmt) -> bool
    decreases a,
{
    match (a, b) {
        (Stmt::Assn(l, r), Stmt::Assn(m, q)) => same_exp_node(l, m) && same_exp_node(r, q),
        (Stmt::Decl(d), Stmt::Decl(e)) => same_vdecl(d, e),
        (Stmt::Ret(v), Stmt::Ret(w)) => same_opt_exp(v, w),
        (Stmt::SCall(f, xs), Stmt::SCall(g, ys)) => same_exp_node(f, g) && same_exps(xs@, ys@),
        (Stmt::If(c, t, e), Stmt::If(d, u, f)) => same_exp_node(c, d) && same_stmts(t@, u@)
            && same_stmts(e@, f@),
        (Stmt::For(ds, c, s, body), Stmt::For(es, d, t, other)) => same_vdecls(ds@, es@)
            && same_opt_exp(c, d) && (match (s, t) {
            (Some(x), Some(y)) => same_stmt_node(*x, *y),
            (None, None) => true,
            _ => false,
        }) && same_stmts(body@, other@),
        (Stmt::While(c, body), Stmt::While(d, other)) => same_exp_node(c, d) && same_stmts(
            body@,
            other@,
        ),
        _ => false,
    }
}

/// Whether `a` and `b` are the same statement at the same place of the
/// text.
pub open spec fn same_stmt_node(a: Node<Stmt>, b: Node<Stmt>) -> bool
    decreases a,
{
    same_stmt(a.elt, b.elt) && a.loc == b.loc
}

/// Whether `a` and `b` are the same statements at the same places, one by
/// one.
pub open spec fn same_stmts(a: Seq<Node<Stmt>>, b: Seq<Node<Stmt>>) -> bool
    decreases a,
{
    a.len() == b.len() && (a.len() == 0 || (same_stmts(a.drop_last(), b.drop_last())
        && same_stmt_node(a.last(), b.last())))
}

/// Statements in order.
pub type Block = Vec<Node<Stmt>>;

/// The declaration of a global variable.
#[derive(Debug, Clone)]
pub struct GDecl {
    pub name: IdTy,
    pub init: Node<Exp>,
}

/// A parameter of a function.
#[derive(Debug, Clone)]
pub struct Arg {
    pub ty: Ty,
    pub id: IdTy,
}

/// The declaration of a function.
#[derive(Debug, Clone)]
pub struct FDecl {
    pub fret_ty: RetTy,
    pub fname: IdTy,
    pub args: Vec<Arg>,
    pub body: Block,
}

/// A field of a struct type.
#[derive(Debug, Clone)]
pub struct Field {
    pub field_name: IdTy,
    pub field_type: Ty,
}

/// The declaration of a struct type.
#[derive(Debug, Clone)]
pub struct TDecl {
    pub td_id: IdTy,
    pub td_node: Vec<Field>,
}

/// A declaration at the top of a program.
#[derive(Debug, Clone)]
pub enum Decl {
    GVDecl(Node<GDecl>),
    GFDecl(Node<FDecl>),
    GTDecl(Node<TDecl>),
}

/// A program: declarations in order.
pub type Prog = Vec<Decl>;

} // verus!
