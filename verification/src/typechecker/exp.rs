//! The types of expressions.

use vstd::prelude::*;
use crate::ast::{
    ty_view, tys_view, BinOp, Exp, Node, RefTy, RefTyView, RetTy, RetTyView, Ty, TyView, UnOp,
};
use crate::common::{Span, TypeError, TypeErrorKind};
use crate::typechecker::subtype::{is_subtype, lemma_tys_view, subtype};
use crate::typechecker::{lookup_var, type_error, TcResult, TypeCtxt, TypeCtxtView};

verus! {

/// The error of a value of a type other than the one asked for: it says
/// `msg`, stands at no place of the text, and names what was asked for and
/// what was found.
pub fn mismatch(msg: &str, expected: &str, found: &str) -> (r: TypeError)
    ensures
        r.msg@ == msg@,
        r.span.start == 0,
        r.span.end == 0,
        r.kind matches TypeErrorKind::Mismatch { expected: e, found: f } && e@ == expected@ && f@
            == found@,
{
    type_error(
        msg.to_owned(),
        Span::dummy(),
        TypeErrorKind::Mismatch { expected: expected.to_owned(), found: found.to_owned() },
    )
}

/// The error of a name that is nowhere declared.
pub fn unknown(msg: &str, name: &str) -> (r: TypeError)
    ensures
        r.kind is UnknownIdentifier,
{
    let mut text = msg.to_owned();
    text.append(name);
    type_error(text, Span::dummy(), TypeErrorKind::UnknownIdentifier { name: name.to_owned() })
}

/// The error of a call of what is no function.
pub fn not_callable(msg: &str, ty: &str) -> (r: TypeError)
    ensures
        r.kind is NotCallable,
{
    type_error(msg.to_owned(), Span::dummy(), TypeErrorKind::NotCallable { ty: ty.to_owned() })
}

/// Whether the type `t` is well formed: every struct type that it names is
/// declared.
pub open spec fn ty_ok(cx: TypeCtxtView, t: TyView) -> bool
    decreases t,
{
    match t {
        TyView::TRef(r) => ref_ok(cx, r),
        TyView::TNullRef(r) => ref_ok(cx, r),
        _ => true,
    }
}

/// Whether the reference type `r` is well formed.
pub open spec fn ref_ok(cx: TypeCtxtView, r: RefTyView) -> bool
    decreases r,
{
    match r {
        RefTyView::RString => true,
        RefTyView::RArray(t) => ty_ok(cx, *t),
        RefTyView::RFun(args, ret) => tys_ok(cx, args) && ret_ok(cx, *ret),
        RefTyView::RStruct(id) => cx.structs.contains_key(id),
    }
}

/// Whether the return type `r` is well formed.
pub open spec fn ret_ok(cx: TypeCtxtView, r: RetTyView) -> bool
    decreases r,
{
    match r {
        RetTyView::RetVoid => true,
        RetTyView::RetVal(t) => ty_ok(cx, *t),
    }
}

/// Whether the types `ts` are well formed.
pub open spec fn tys_ok(cx: TypeCtxtView, ts: Seq<TyView>) -> bool
    decreases ts,
{
    ts.len() == 0 || (tys_ok(cx, ts.drop_last()) && ty_ok(cx, ts.last()))
}

/// Checks that the type `t` is well formed.
pub fn typecheck_ty(h: &TypeCtxt, t: &Ty) -> (r: TcResult<()>)
    ensures
        r is Ok <==> ty_ok(h@, t@),
    decreases t,
{
    match t {
        Ty::TBool => Ok(()),
        Ty::TInt => Ok(()),
        Ty::TRef(r) => typecheck_ref(h, r),
        Ty::TNullRef(r) => typecheck_ref(h, r),
    }
}

/// Checks that the reference type `r` is well formed.
pub fn typecheck_ref(h: &TypeCtxt, r: &RefTy) -> (res: TcResult<()>)
    ensures
        res is Ok <==> ref_ok(h@, r@),
    decreases r,
{
    match r {
        RefTy::RString => Ok(()),
        RefTy::RStruct(id) => {
            if h.lookup_struct_option(id.as_str()).is_none() {
                Err(unknown("Unbound struct type for ", id.as_str()))
            } else {
                Ok(())
            }
        },
        RefTy::RArray(b) => typecheck_ty(h, b),
        RefTy::RFun(args, ret) => match typecheck_tys(h, args) {
            Ok(_) => typecheck_ret(h, ret),
            Err(e) => Err(e),
        },
    }
}

/// Checks that the types `ts` are well formed.
pub fn typecheck_tys(h: &TypeCtxt, ts: &Vec<Ty>) -> (res: TcResult<()>)
    ensures
        res is Ok <==> tys_ok(h@, tys_view(ts@)),
    decreases ts,
{
    let mut i: usize = 0;
    assert(tys_view(ts@.take(0)) =~= seq![]);
    while i < ts.len()
        invariant
            i <= ts.len(),
            tys_ok(h@, tys_view(ts@.take(i as int))),
        decreases ts.len() - i,
    {
        proof {
            assert(ts@.take(i as int + 1).drop_last() == ts@.take(i as int));
            assert(ts@.take(i as int + 1).last() == ts@[i as int]);
            let v = tys_view(ts@.take(i as int + 1));
            assert(v.drop_last() == tys_view(ts@.take(i as int)));
            assert(v.last() == ty_view(ts@[i as int]));
        }
        match typecheck_ty(h, &ts[i]) {
            Ok(_) => {},
            Err(e) => {
                proof {
                    if tys_ok(h@, tys_view(ts@)) {
                        lemma_tys_ok_prefix(h@, ts@, i as int + 1);
                    }
                }
                return Err(e);
            },
        }
        i += 1;
    }
    assert(ts@.take(i as int) == ts@);
    Ok(())
}

/// Well formed types begin with well formed types.
pub proof fn lemma_tys_ok_prefix(cx: TypeCtxtView, ts: Seq<Ty>, n: int)
    requires
        0 <= n <= ts.len(),
        tys_ok(cx, tys_view(ts)),
    ensures
        tys_ok(cx, tys_view(ts.take(n))),
    decreases ts.len(),
{
    if n == ts.len() {
        assert(ts.take(n) == ts);
    } else {
        assert(tys_view(ts).drop_last() == tys_view(ts.drop_last()));
        lemma_tys_ok_prefix(cx, ts.drop_last(), n);
        assert(ts.drop_last().take(n) == ts.take(n));
    }
}

/// Checks that the return type `r` is well formed.
pub fn typecheck_ret(h: &TypeCtxt, r: &RetTy) -> (res: TcResult<()>)
    ensures
        res is Ok <==> ret_ok(h@, r@),
    decreases r,
{
    match r {
        RetTy::RetVoid => Ok(()),
        RetTy::RetVal(t) => typecheck_ty(h, t),
    }
}

/// What a binary operator asks of both its operands and what it gives; the
/// two tests for equality ask for no type of their own.
pub open spec fn bop_sig(op: BinOp) -> Option<(TyView, TyView)> {
    match op {
        BinOp::Add | BinOp::Sub | BinOp::Mul | BinOp::IAnd | BinOp::IOr | BinOp::Shl | BinOp::Shr
        | BinOp::Sar => Some((TyView::TInt, TyView::TInt)),
        BinOp::Lt | BinOp::Lte | BinOp::Gt | BinOp::Gte => Some((TyView::TInt, TyView::TBool)),
        BinOp::And | BinOp::Or => Some((TyView::TBool, TyView::TBool)),
        BinOp::Eq | BinOp::Neq => None,
    }
}

/// The type of the expression `e`, where it has one.
///
/// - A constant has the type of its kind; null is a nullable reference of
///   the type written with it, which must be well formed.
/// - An array of written elements has the element type written with it,
///   for which every element must be able to stand; a new array has the
///   element type written with it and a length of type integer.
/// - A name has the type of the variable that it names.
/// - An element of an array, which must not be nullable, taken at an
///   index of type integer, has the element type.
/// - A call of a function, which must not be nullable and must return a
///   value, with arguments that can stand for its parameters one by one,
///   has the type of the result.
/// - An arithmetic or bitwise operator takes integers and gives an
///   integer, an ordering takes integers and gives a boolean, a logical
///   operator takes and gives booleans; a test for equality takes two
///   values each of which can stand for the other and gives a boolean.
pub open spec fn exp_ty(cx: TypeCtxtView, e: Exp) -> Option<TyView>
    decreases e,
{
    match e {
        Exp::CNull(r) => if ref_ok(cx, r@) {
            Some(TyView::TNullRef(r@))
        } else {
            None
        },
        Exp::CBool(_) => Some(TyView::TBool),
        Exp::CInt(_) => Some(TyView::TInt),
        Exp::CStr(_) => Some(TyView::TRef(RefTyView::RString)),
        Exp::CArr(t, es) => if ty_ok(cx, t@) && elems_fit(cx, es@, t@) {
            Some(TyView::TRef(RefTyView::RArray(Box::new(t@))))
        } else {
            None
        },
        Exp::NewArr(t, n) => if ty_ok(cx, t@) && exp_ty(cx, n.elt) == Some(TyView::TInt) {
            Some(TyView::TRef(RefTyView::RArray(Box::new(t@))))
        } else {
            None
        },
        Exp::Id(x) => lookup_var(cx, x@),
        Exp::Index(a, i) => match exp_ty(cx, a.elt) {
            Some(TyView::TRef(RefTyView::RArray(t))) => if exp_ty(cx, i.elt) == Some(
                TyView::TInt,
            ) {
                Some(*t)
            } else {
                None
            },
            _ => None,
        },
        Exp::Call(f, args) => match exp_ty(cx, f.elt) {
            Some(TyView::TRef(RefTyView::RFun(ps, ret))) => match *ret {
                RetTyView::RetVal(t) => if args_fit(cx, args@, ps) {
                    Some(*t)
                } else {
                    None
                },
                RetTyView::RetVoid => None,
            },
            _ => None,
        },
        Exp::Bop(op, l, r) => match (exp_ty(cx, l.elt), exp_ty(cx, r.elt)) {
            (Some(t1), Some(t2)) => match bop_sig(op) {
                Some((operand, result)) => if t1 == operand && t2 == operand {
                    Some(result)
                } else {
                    None
                },
                None => if is_subtype(t1, t2) && is_subtype(t2, t1) {
                    Some(TyView::TBool)
                } else {
                    None
                },
            },
            _ => None,
        },
        Exp::Uop(op, x) => match exp_ty(cx, x.elt) {
            Some(t) => match op {
                UnOp::Neg | UnOp::BitNot => if t == TyView::TInt {
                    Some(TyView::TInt)
                } else {
                    None
                },
                UnOp::LogNot => if t == TyView::TBool {
                    Some(TyView::TBool)
                } else {
                    None
                },
            },
            None => None,
        },
    }
}

/// Whether each of the expressions `es` has a type that can stand for `t`.
pub open spec fn elems_fit(cx: TypeCtxtView, es: Seq<Node<Exp>>, t: TyView) -> bool
    decreases es,
{
    es.len() == 0 || (elems_fit(cx, es.drop_last(), t) && (exp_ty(cx, es.last().elt) matches Some(
        u,
    ) && is_subtype(u, t)))
}

/// Whether the expressions `args` are as many as the types `ps`, and each
/// has a type that can stand for the one at its place.
pub open spec fn args_fit(cx: TypeCtxtView, args: Seq<Node<Exp>>, ps: Seq<TyView>) -> bool
    decreases args,
{
    args.len() == ps.len() && (args.len() == 0 || (args_fit(cx, args.drop_last(), ps.drop_last())
        && (exp_ty(cx, args.last().elt) matches Some(u) && is_subtype(u, ps.last()))))
}

/// Where some first expressions do not fit, all do not.
pub proof fn lemma_elems_fit_prefix(cx: TypeCtxtView, es: Seq<Node<Exp>>, t: TyView, n: int)
    requires
        0 <= n <= es.len(),
        elems_fit(cx, es, t),
    ensures
        elems_fit(cx, es.take(n), t),
    decreases es.len(),
{
    if n == es.len() {
        assert(es.take(n) == es);
    } else {
        lemma_elems_fit_prefix(cx, es.drop_last(), t, n);
        assert(es.drop_last().take(n) == es.take(n));
    }
}

/// Where some first arguments do not fit, all do not.
pub proof fn lemma_args_fit_prefix(cx: TypeCtxtView, args: Seq<Node<Exp>>, ps: Seq<TyView>, n: int)
    requires
        0 <= n <= args.len(),
        args_fit(cx, args, ps),
    ensures
        args_fit(cx, args.take(n), ps.take(n)),
    decreases args.len(),
{
    if n == args.len() {
        assert(args.take(n) == args);
        assert(ps.take(n) == ps);
    } else {
        lemma_args_fit_prefix(cx, args.drop_last(), ps.drop_last(), n);
        assert(args.drop_last().take(n) == args.take(n));
        assert(ps.drop_last().take(n) == ps.take(n));
    }
}

/// Checks that each of the expressions `args` has a type that can stand
/// for the one at its place in `ps`.
pub fn typecheck_args(h: &TypeCtxt, args: &Vec<Node<Exp>>, ps: &Vec<Ty>) -> (r: TcResult<()>)
    ensures
        r is Ok <==> args_fit(h@, args@, tys_view(ps@)),
    decreases args,
{
    let ghost pv = tys_view(ps@);
    proof {
        lemma_tys_view(ps@);
    }
    if args.len() != ps.len() {
        return Err(mismatch("wrong number of arguments", "as many as parameters", "others"));
    }
    let mut i: usize = 0;
    assert(args@.take(0) =~= seq![]);
    assert(pv.take(0) =~= seq![]);
    while i < args.len()
        invariant
            i <= args.len(),
            args.len() == ps.len(),
            pv == tys_view(ps@),
            pv.len() == ps.len(),
            forall|k: int| 0 <= k < ps.len() ==> #[trigger] pv[k] == ty_view(ps@[k]),
            args_fit(h@, args@.take(i as int), pv.take(i as int)),
        decreases args.len() - i,
    {
        proof {
            assert(args@.take(i as int + 1).drop_last() == args@.take(i as int));
            assert(pv.take(i as int + 1).drop_last() == pv.take(i as int));
        }
        let fits = match typecheck_exp(h, &args[i]) {
            Ok(t) => subtype(h, &t, &ps[i]),
            Err(_) => false,
        };
        if !fits {
            proof {
                if args_fit(h@, args@, pv) {
                    lemma_args_fit_prefix(h@, args@, pv, i as int + 1);
                }
            }
            return Err(mismatch("argument of the wrong type", "the parameter's", "another"));
        }
        i += 1;
    }
    assert(args@.take(i as int) == args@);
    assert(pv.take(i as int) == pv);
    Ok(())
}

/// Checks that each of the expressions `es` has a type that can stand for
/// `t`.
pub fn typecheck_elems(h: &TypeCtxt, es: &Vec<Node<Exp>>, t: &Ty) -> (r: TcResult<()>)
    ensures
        r is Ok <==> elems_fit(h@, es@, t@),
    decreases es,
{
    let mut i: usize = 0;
    assert(es@.take(0) =~= seq![]);
    while i < es.len()
        invariant
            i <= es.len(),
            elems_fit(h@, es@.take(i as int), t@),
        decreases es.len() - i,
    {
        proof {
            assert(es@.take(i as int + 1).drop_last() == es@.take(i as int));
        }
        let fits = match typecheck_exp(h, &es[i]) {
            Ok(u) => subtype(h, &u, t),
            Err(_) => false,
        };
        if !fits {
            proof {
                if elems_fit(h@, es@, t@) {
                    lemma_elems_fit_prefix(h@, es@, t@, i as int + 1);
                }
            }
            return Err(mismatch("array element of the wrong type", "the array's", "another"));
        }
        i += 1;
    }
    assert(es@.take(i as int) == es@);
    Ok(())
}

/// The type of the expression `e`.
pub fn typecheck_exp(h: &TypeCtxt, e: &Node<Exp>) -> (r: TcResult<Ty>)
    ensures
        match r {
            Ok(t) => exp_ty(h@, e.elt) == Some(t@),
            Err(_) => exp_ty(h@, e.elt) is None,
        },
    decreases e,
{
    match &e.elt {
        Exp::CNull(r) => match typecheck_ref(h, r) {
            Ok(_) => Ok(Ty::TNullRef(r.clone())),
            Err(err) => Err(err),
        },
        Exp::CBool(_) => Ok(Ty::TBool),
        Exp::CInt(_) => Ok(Ty::TInt),
        Exp::CStr(_) => Ok(Ty::TRef(RefTy::RString)),
        Exp::CArr(t, es) => {
            match typecheck_ty(h, t) {
                Ok(_) => {},
                Err(err) => {
                    return Err(err);
                },
            }
            match typecheck_elems(h, es, t) {
                Ok(_) => {},
                Err(err) => {
                    return Err(err);
                },
            }
            Ok(Ty::TRef(RefTy::RArray(Box::new(t.clone()))))
        },
        Exp::NewArr(t, n) => {
            match typecheck_ty(h, t) {
                Ok(_) => {},
                Err(err) => {
                    return Err(err);
                },
            }
            match typecheck_exp(h, n) {
                Ok(Ty::TInt) => Ok(Ty::TRef(RefTy::RArray(Box::new(t.clone())))),
                Ok(_) => Err(mismatch("array length must be an integer", "int", "another")),
                Err(err) => Err(err),
            }
        },
        Exp::Id(x) => match h.lookup_var_option(x.as_str()) {
            Some(t) => Ok(t.clone()),
            None => Err(unknown("unbound variable ", x.as_str())),
        },
        Exp::Index(a, i) => {
            let elt: Ty = match typecheck_exp(h, a) {
                Ok(Ty::TRef(RefTy::RArray(t))) => *t,
                Ok(_) => {
                    return Err(mismatch("only an array has elements", "array", "another"));
                },
                Err(err) => {
                    return Err(err);
                },
            };
            match typecheck_exp(h, i) {
                Ok(Ty::TInt) => Ok(elt),
                Ok(_) => Err(mismatch("array index must be an integer", "int", "another")),
                Err(err) => Err(err),
            }
        },
        Exp::Call(f, args) => {
            let (ps, ret): (Vec<Ty>, RetTy) = match typecheck_exp(h, f) {
                Ok(Ty::TRef(RefTy::RFun(ps, ret))) => (ps, *ret),
                Ok(_) => {
                    return Err(not_callable("only a function can be called", "no function"));
                },
                Err(err) => {
                    return Err(err);
                },
            };
            match ret {
                RetTy::RetVal(t) => match typecheck_args(h, args, &ps) {
                    Ok(_) => Ok(*t),
                    Err(err) => Err(err),
                },
                RetTy::RetVoid => Err(mismatch("the call gives no value", "a value", "void")),
            }
        },
        Exp::Bop(op, l, r) => {
            let t1: Ty = match typecheck_exp(h, l) {
                Ok(t) => t,
                Err(err) => {
                    return Err(err);
                },
            };
            let t2: Ty = match typecheck_exp(h, r) {
                Ok(t) => t,
                Err(err) => {
                    return Err(err);
                },
            };
            match op {
                BinOp::Add | BinOp::Sub | BinOp::Mul | BinOp::IAnd | BinOp::IOr | BinOp::Shl
                | BinOp::Shr | BinOp::Sar => match (t1, t2) {
                    (Ty::TInt, Ty::TInt) => Ok(Ty::TInt),
                    _ => Err(mismatch("both operands must be integers", "int", "another")),
                },
                BinOp::Lt | BinOp::Lte | BinOp::Gt | BinOp::Gte => match (t1, t2) {
                    (Ty::TInt, Ty::TInt) => Ok(Ty::TBool),
                    _ => Err(mismatch("both operands must be integers", "int", "another")),
                },
                BinOp::And | BinOp::Or => match (t1, t2) {
                    (Ty::TBool, Ty::TBool) => Ok(Ty::TBool),
                    _ => Err(mismatch("both operands must be booleans", "bool", "another")),
                },
                BinOp::Eq | BinOp::Neq => {
                    if subtype(h, &t1, &t2) && subtype(h, &t2, &t1) {
                        Ok(Ty::TBool)
                    } else {
                        Err(mismatch("operands of different types", "the same", "different"))
                    }
                },
            }
        },
        Exp::Uop(op, x) => {
            let t: Ty = match typecheck_exp(h, x) {
                Ok(t) => t,
                Err(err) => {
                    return Err(err);
                },
            };
            match op {
                UnOp::Neg | UnOp::BitNot => match t {
                    Ty::TInt => Ok(Ty::TInt),
                    _ => Err(mismatch("the operand must be an integer", "int", "another")),
                },
                UnOp::LogNot => match t {
                    Ty::TBool => Ok(Ty::TBool),
                    _ => Err(mismatch("the operand must be a boolean", "bool", "another")),
                },
            }
        },
    }
}

} // verus!
