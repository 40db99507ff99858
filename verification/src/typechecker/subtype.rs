//! Equality of types and subtyping.

use vstd::prelude::*;
use crate::ast::{ty_view, tys_view, RefTy, RefTyView, RetTy, RetTyView, Ty, TyView};
use crate::typechecker::TypeCtxt;

verus! {

/// The values of types stand in the order of the types, one for each.
pub proof fn lemma_tys_view(ts: Seq<Ty>)
    ensures
        tys_view(ts).len() == ts.len(),
        forall|i: int| 0 <= i < ts.len() ==> #[trigger] tys_view(ts)[i] == ty_view(ts[i]),
    decreases ts.len(),
{
    if ts.len() > 0 {
        lemma_tys_view(ts.drop_last());
    }
}

/// Whether `a` and `b` are the same types, one by one.
pub fn tys_eq(a: &Vec<Ty>, b: &Vec<Ty>) -> (r: bool)
    ensures
        r == (tys_view(a@) == tys_view(b@)),
    decreases a,
{
    proof {
        lemma_tys_view(a@);
        lemma_tys_view(b@);
    }
    if a.len() != b.len() {
        return false;
    }
    let mut i: usize = 0;
    while i < a.len()
        invariant
            i <= a.len(),
            a.len() == b.len(),
            forall|k: int| 0 <= k < i ==> ty_view(a@[k]) == ty_view(b@[k]),
        decreases a.len() - i,
    {
        if !ty_eq(&a[i], &b[i]) {
            proof {
                lemma_tys_view(a@);
                lemma_tys_view(b@);
                assert(tys_view(a@)[i as int] != tys_view(b@)[i as int]);
            }
            return false;
        }
        i += 1;
    }
    proof {
        lemma_tys_view(a@);
        lemma_tys_view(b@);
        assert(tys_view(a@) =~= tys_view(b@));
    }
    true
}

/// Whether `a` and `b` are the same type.
pub fn ty_eq(a: &Ty, b: &Ty) -> (r: bool)
    ensures
        r == (a@ == b@),
    decreases a,
{
    match (a, b) {
        (Ty::TBool, Ty::TBool) => true,
        (Ty::TInt, Ty::TInt) => true,
        (Ty::TRef(r1), Ty::TRef(r2)) => ref_eq(r1, r2),
        (Ty::TNullRef(r1), Ty::TNullRef(r2)) => ref_eq(r1, r2),
        _ => false,
    }
}

/// Whether `a` and `b` are the same reference type.
pub fn ref_eq(a: &RefTy, b: &RefTy) -> (r: bool)
    ensures
        r == (a@ == b@),
    decreases a,
{
    match (a, b) {
        (RefTy::RString, RefTy::RString) => true,
        (RefTy::RArray(t1), RefTy::RArray(t2)) => ty_eq(t1, t2),
        (RefTy::RFun(args1, ret1), RefTy::RFun(args2, ret2)) => tys_eq(args1, args2) && ret_eq(
            ret1,
            ret2,
        ),
        (RefTy::RStruct(id1), RefTy::RStruct(id2)) => *id1 == *id2,
        _ => false,
    }
}

/// Whether `a` and `b` are the same return type.
pub fn ret_eq(a: &RetTy, b: &RetTy) -> (r: bool)
    ensures
        r == (a@ == b@),
    decreases a,
{
    match (a, b) {
        (RetTy::RetVoid, RetTy::RetVoid) => true,
        (RetTy::RetVal(t1), RetTy::RetVal(t2)) => ty_eq(t1, t2),
        _ => false,
    }
}

/// How deep the type `t` is nested.
pub open spec fn ty_height(t: TyView) -> nat
    decreases t,
{
    match t {
        TyView::TRef(r) => 1 + ref_height(r),
        TyView::TNullRef(r) => 1 + ref_height(r),
        _ => 0,
    }
}

/// How deep the reference type `r` is nested.
pub open spec fn ref_height(r: RefTyView) -> nat
    decreases r,
{
    match r {
        RefTyView::RArray(t) => 1 + ty_height(*t),
        RefTyView::RFun(args, ret) => 1 + tys_height(args) + ret_height(*ret),
        _ => 0,
    }
}

/// How deep the return type `r` is nested.
pub open spec fn ret_height(r: RetTyView) -> nat
    decreases r,
{
    match r {
        RetTyView::RetVal(t) => 1 + ty_height(*t),
        RetTyView::RetVoid => 0,
    }
}

/// How deep the types `ts` are nested, taken together.
pub open spec fn tys_height(ts: Seq<TyView>) -> nat
    decreases ts,
{
    if ts.len() == 0 {
        0
    } else {
        tys_height(ts.drop_last()) + ty_height(ts.last()) + 1
    }
}

/// Whether a value of type `t1` can stand where one of type `t2` is asked
/// for. Integers and booleans stand for themselves only. A reference can
/// stand for a reference, nullable or not, to what its own target can stand
/// for.
pub open spec fn is_subtype(t1: TyView, t2: TyView) -> bool
    decreases ty_height(t1) + ty_height(t2),
{
    match (t1, t2) {
        (TyView::TInt, TyView::TInt) => true,
        (TyView::TBool, TyView::TBool) => true,
        (TyView::TNullRef(r1), TyView::TNullRef(r2)) => is_subtype_ref(r1, r2),
        (TyView::TRef(r1), TyView::TNullRef(r2)) => is_subtype_ref(r1, r2),
        (TyView::TRef(r1), TyView::TRef(r2)) => is_subtype_ref(r1, r2),
        (TyView::TNullRef(r1), TyView::TRef(r2)) => is_subtype_ref(r1, r2),
        _ => false,
    }
}

/// Whether what `r1` refers to can stand for what `r2` refers to. A string
/// stands for a string. An array stands for an array of the same element
/// type. A function stands for one that takes arguments that its own
/// parameters can take, and whose result its own result can stand for. A
/// struct stands for the struct of the same name.
pub open spec fn is_subtype_ref(r1: RefTyView, r2: RefTyView) -> bool
    decreases ref_height(r1) + ref_height(r2),
{
    match (r1, r2) {
        (RefTyView::RString, RefTyView::RString) => true,
        (RefTyView::RArray(t1), RefTyView::RArray(t2)) => *t1 == *t2,
        (RefTyView::RFun(args1, out1), RefTyView::RFun(args2, out2)) => is_subtype_list(
            args2,
            args1,
        ) && is_subtype_ret(*out1, *out2),
        (RefTyView::RStruct(id1), RefTyView::RStruct(id2)) => id1 == id2,
        _ => false,
    }
}

/// Whether a result of type `t1` can stand for one of type `t2`.
pub open spec fn is_subtype_ret(t1: RetTyView, t2: RetTyView) -> bool
    decreases ret_height(t1) + ret_height(t2),
{
    match (t1, t2) {
        (RetTyView::RetVoid, RetTyView::RetVoid) => true,
        (RetTyView::RetVal(v1), RetTyView::RetVal(v2)) => is_subtype(*v1, *v2),
        _ => false,
    }
}

/// Whether the types `l1` can stand for the types `l2`, one for one.
pub open spec fn is_subtype_list(l1: Seq<TyView>, l2: Seq<TyView>) -> bool
    decreases tys_height(l1) + tys_height(l2),
{
    l1.len() == l2.len() && (l1.len() == 0 || (is_subtype_list(l1.drop_last(), l2.drop_last())
        && is_subtype(l1.last(), l2.last())))
}

/// Each of a list of types is nested less deep than the list.
pub proof fn lemma_tys_height(ts: Seq<TyView>, i: int)
    requires
        0 <= i < ts.len(),
    ensures
        ty_height(ts[i]) < tys_height(ts),
        tys_height(ts.take(i)) <= tys_height(ts),
    decreases ts.len(),
{
    if i < ts.len() - 1 {
        lemma_tys_height(ts.drop_last(), i);
        assert(ts.drop_last().take(i) == ts.take(i));
    } else {
        assert(ts.take(i) == ts.drop_last());
    }
}

/// Whether a value of type `t1` can stand where one of type `t2` is asked
/// for.
pub fn subtype(h: &TypeCtxt, t1: &Ty, t2: &Ty) -> (r: bool)
    ensures
        r == is_subtype(t1@, t2@),
    decreases ty_height(t1@) + ty_height(t2@),
{
    match (t1, t2) {
        (Ty::TInt, Ty::TInt) => true,
        (Ty::TBool, Ty::TBool) => true,
        (Ty::TNullRef(rty1), Ty::TNullRef(rty2)) => subtype_ref(h, rty1, rty2),
        (Ty::TRef(rty1), Ty::TNullRef(rty2)) => subtype_ref(h, rty1, rty2),
        (Ty::TRef(rty1), Ty::TRef(rty2)) => subtype_ref(h, rty1, rty2),
        (Ty::TNullRef(rty1), Ty::TRef(rty2)) => subtype_ref(h, rty1, rty2),
        (_, _) => false,
    }
}

/// Whether what `t1` refers to can stand for what `t2` refers to.
pub fn subtype_ref(h: &TypeCtxt, t1: &RefTy, t2: &RefTy) -> (r: bool)
    ensures
        r == is_subtype_ref(t1@, t2@),
    decreases ref_height(t1@) + ref_height(t2@),
{
    match (t1, t2) {
        (RefTy::RString, RefTy::RString) => true,
        (RefTy::RArray(elt_t1), RefTy::RArray(elt_t2)) => ty_eq(elt_t1, elt_t2),
        (RefTy::RFun(args1, out1), RefTy::RFun(args2, out2)) => {
            subtype_list(h, args2.as_slice(), args1.as_slice()) && subtype_ret(h, out1, out2)
        },
        (RefTy::RStruct(id1), RefTy::RStruct(id2)) => {
            *id1 == *id2 || subtype_fields(h, id1, id2)
        },
        (_, _) => false,
    }
}

/// Whether a result of type `t1` can stand for one of type `t2`.
pub fn subtype_ret(h: &TypeCtxt, t1: &RetTy, t2: &RetTy) -> (r: bool)
    ensures
        r == is_subtype_ret(t1@, t2@),
    decreases ret_height(t1@) + ret_height(t2@),
{
    match (t1, t2) {
        (RetTy::RetVoid, RetTy::RetVoid) => true,
        (RetTy::RetVal(v1), RetTy::RetVal(v2)) => subtype(h, v1, v2),
        _ => false,
    }
}

/// Whether the types `l1` can stand for the types `l2`, one for one.
pub fn subtype_list(h: &TypeCtxt, l1: &[Ty], l2: &[Ty]) -> (r: bool)
    ensures
        r == is_subtype_list(tys_view(l1@), tys_view(l2@)),
    decreases tys_height(tys_view(l1@)) + tys_height(tys_view(l2@)),
{
    let ghost v1 = tys_view(l1@);
    let ghost v2 = tys_view(l2@);
    proof {
        lemma_tys_view(l1@);
        lemma_tys_view(l2@);
    }
    if l1.len() != l2.len() {
        return false;
    }
    let mut i: usize = 0;
    assert(v1.take(0) =~= seq![]);
    assert(v2.take(0) =~= seq![]);
    while i < l1.len()
        invariant
            i <= l1.len(),
            l1.len() == l2.len(),
            v1 == tys_view(l1@),
            v2 == tys_view(l2@),
            v1.len() == l1.len(),
            v2.len() == l2.len(),
            forall|k: int| 0 <= k < l1.len() ==> #[trigger] v1[k] == ty_view(l1@[k]),
            forall|k: int| 0 <= k < l2.len() ==> #[trigger] v2[k] == ty_view(l2@[k]),
            is_subtype_list(v1.take(i as int), v2.take(i as int)),
        decreases l1.len() - i,
    {
        proof {
            lemma_tys_height(v1, i as int);
            lemma_tys_height(v2, i as int);
            assert(v1.take(i as int + 1).drop_last() == v1.take(i as int));
            assert(v2.take(i as int + 1).drop_last() == v2.take(i as int));
        }
        if !subtype(h, &l1[i], &l2[i]) {
            proof {
                if is_subtype_list(v1, v2) {
                    lemma_subtype_list_prefix(v1, v2, i as int + 1);
                }
            }
            return false;
        }
        i += 1;
    }
    assert(v1.take(i as int) == v1);
    assert(v2.take(i as int) == v2);
    true
}

/// Lists of which one can stand for the other begin with lists of which
/// one can stand for the other.
pub proof fn lemma_subtype_list_prefix(l1: Seq<TyView>, l2: Seq<TyView>, n: int)
    requires
        0 <= n <= l1.len(),
        l1.len() == l2.len(),
        is_subtype_list(l1, l2),
    ensures
        is_subtype_list(l1.take(n), l2.take(n)),
    decreases l1.len(),
{
    if n == l1.len() {
        assert(l1.take(n) == l1);
        assert(l2.take(n) == l2);
    } else {
        lemma_subtype_list_prefix(l1.drop_last(), l2.drop_last(), n);
        assert(l1.drop_last().take(n) == l1.take(n));
        assert(l2.drop_last().take(n) == l2.take(n));
    }
}

/// Whether the struct type `n1` can stand for the different struct type
/// `n2`: it never can.
pub fn subtype_fields(h: &TypeCtxt, n1: &str, n2: &str) -> (r: bool)
    ensures
        !r,
{
    false
}

} // verus!
