//! The checks of statements and blocks.

use vstd::prelude::*;
use crate::ast::{Exp, Node, RefTy, RefTyView, RetTy, RetTyView, Stmt, Ty, TyView, VDecl};
use crate::typechecker::exp::{
    args_fit, exp_ty, mismatch, not_callable, typecheck_args, typecheck_exp,
};
use crate::typechecker::subtype::{is_subtype, subtype};
use crate::typechecker::{TcResult, TypeCtxt, TypeCtxtView};

verus! {

/// The context `cx` with the scope `m` in the place of its innermost
/// scope.
pub open spec fn with_scope(cx: TypeCtxtView, m: Map<Seq<char>, TyView>) -> TypeCtxtView {
    TypeCtxtView {
        locals: cx.locals.update(cx.locals.len() - 1, m),
        globals: cx.globals,
        functions: cx.functions,
        structs: cx.structs,
    }
}

/// The context `cx` with a new innermost scope, which declares nothing.
pub open spec fn enter(cx: TypeCtxtView) -> TypeCtxtView {
    TypeCtxtView {
        locals: cx.locals.push(Map::empty()),
        globals: cx.globals,
        functions: cx.functions,
        structs: cx.structs,
    }
}

/// The innermost scope after the declaration `vd`, where it is well
/// typed: the name is new in the innermost scope, the expression has a
/// type, and the name gets that type.
pub open spec fn decl_ty(cx: TypeCtxtView, vd: VDecl) -> Option<Map<Seq<char>, TyView>> {
    if cx.locals.last().contains_key(vd.vd_id@) {
        None
    } else {
        match exp_ty(cx, vd.vd_node.elt) {
            Some(t) => Some(cx.locals.last().insert(vd.vd_id@, t)),
            None => None,
        }
    }
}

/// The innermost scope after the declarations `ds`, made one after the
/// other, where they are well typed.
pub open spec fn decls_ty(cx: TypeCtxtView, ds: Seq<VDecl>) -> Option<Map<Seq<char>, TyView>>
    decreases ds.len(),
{
    if ds.len() == 0 {
        Some(cx.locals.last())
    } else {
        match decl_ty(cx, ds[0]) {
            Some(m) => decls_ty(with_scope(cx, m), ds.drop_first()),
            None => None,
        }
    }
}

/// What the statement `s` of a function with the result type `ret` comes
/// to, where it is well typed: the innermost scope after it, and whether it
/// ends the function on every path.
///
/// - An assignment stores into a variable or an element of an array a
///   value that can stand for its type.
/// - A declaration adds a name to the innermost scope.
/// - A return without a value asks for a function without a result, one
///   with a value for a function with a result that the value can stand
///   for.
/// - A call as a statement asks for a function without a result.
/// - A conditional has a boolean condition and two blocks, each in a scope
///   of its own; it ends the function where both blocks do.
/// - A loop has a boolean condition and a body in a scope of its own; a
///   counting loop declares its variables in a scope around condition, step
///   and body, and its step does not end the function. No loop ends the
///   function on every path.
pub open spec fn stmt_ty(cx: TypeCtxtView, ret: RetTyView, s: Stmt) -> Option<
    (Map<Seq<char>, TyView>, bool),
>
    decreases s,
{
    let top = cx.locals.last();
    match s {
        Stmt::Assn(lhs, rhs) => if lhs.elt is Id || lhs.elt is Index {
            match (exp_ty(cx, lhs.elt), exp_ty(cx, rhs.elt)) {
                (Some(t), Some(u)) => if is_subtype(u, t) {
                    Some((top, false))
                } else {
                    None
                },
                _ => None,
            }
        } else {
            None
        },
        Stmt::Decl(vd) => match decl_ty(cx, vd) {
            Some(m) => Some((m, false)),
            None => None,
        },
        Stmt::Ret(v) => if can_give_back(cx, ret, v) {
            Some((top, true))
        } else {
            None
        },
        Stmt::SCall(f, args) => if can_call(cx, f.elt, args@) {
            Some((top, false))
        } else {
            None
        },
        Stmt::If(c, b1, b2) => if exp_ty(cx, c.elt) == Some(TyView::TBool) {
            match (scoped(cx, ret, b1@), scoped(cx, ret, b2@)) {
                (Some(r1), Some(r2)) => Some((top, r1 && r2)),
                _ => None,
            }
        } else {
            None
        },
        Stmt::For(vds, c, upd, body) => match decls_ty(enter(cx), vds@) {
            Some(m) => {
                let inner = with_scope(enter(cx), m);
                if c matches Some(e) && exp_ty(inner, e.elt) != Some(TyView::TBool) {
                    None
                } else {
                    match upd {
                        Some(u) => match stmt_ty(inner, ret, u.elt) {
                            Some((m2, r)) => if !r && scoped(with_scope(inner, m2), ret, body@)
                                is Some {
                                Some((top, false))
                            } else {
                                None
                            },
                            None => None,
                        },
                        None => if scoped(inner, ret, body@) is Some {
                            Some((top, false))
                        } else {
                            None
                        },
                    }
                }
            },
            None => None,
        },
        Stmt::While(c, body) => if exp_ty(cx, c.elt) == Some(TyView::TBool) && scoped(
            cx,
            ret,
            body@,
        ) is Some {
            Some((top, false))
        } else {
            None
        },
    }
}

/// What the statements `b`, one after the other, come to, where they are
/// well typed: the innermost scope after them, and whether they end the
/// function on every path. A statement that ends the function on every
/// path must be the last.
pub open spec fn block_ty(cx: TypeCtxtView, ret: RetTyView, b: Seq<Node<Stmt>>) -> Option<
    (Map<Seq<char>, TyView>, bool),
>
    decreases b, 0nat,
{
    if b.len() == 0 {
        Some((cx.locals.last(), false))
    } else {
        match stmt_ty(cx, ret, b[0].elt) {
            Some((m, r)) => if r {
                if b.len() == 1 {
                    Some((m, true))
                } else {
                    None
                }
            } else {
                block_ty(with_scope(cx, m), ret, b.drop_first())
            },
            None => None,
        }
    }
}

/// Whether the block `b` in a scope of its own ends the function on every
/// path,
/// where it is well typed.
pub open spec fn scoped(cx: TypeCtxtView, ret: RetTyView, b: Seq<Node<Stmt>>) -> Option<bool>
    decreases b, 1nat,
{
    match block_ty(enter(cx), ret, b) {
        Some((_, r)) => Some(r),
        None => None,
    }
}

/// Checks the declaration `vd` and makes it in the innermost scope.
pub fn typecheck_decl(h: &mut TypeCtxt, vd: &VDecl) -> (r: TcResult<()>)
    requires
        old(h)@.locals.len() > 0,
    ensures
        match r {
            Ok(_) => decl_ty(old(h)@, *vd) matches Some(m) && final(h)@ == with_scope(
                old(h)@,
                m,
            ),
            Err(_) => decl_ty(old(h)@, *vd) is None && final(h)@ == old(h)@,
        },
{
    if h.declares_local(vd.vd_id.as_str()) {
        return Err(mismatch("variable declared twice in one scope", "a new name", "a used one"));
    }
    match typecheck_exp(h, &vd.vd_node) {
        Ok(t) => {
            h.add_local(vd.vd_id.clone(), t);
            Ok(())
        },
        Err(e) => Err(e),
    }
}

/// Checks the declarations `ds` and makes them in the innermost scope, one
/// after the other.
pub fn typecheck_decls(h: &mut TypeCtxt, ds: &Vec<VDecl>) -> (r: TcResult<()>)
    requires
        old(h)@.locals.len() > 0,
    ensures
        match r {
            Ok(_) => decls_ty(old(h)@, ds@) matches Some(m) && final(h)@ == with_scope(
                old(h)@,
                m,
            ),
            Err(_) => decls_ty(old(h)@, ds@) is None,
        },
{
    let mut i: usize = 0;
    assert(ds@.skip(0) == ds@);
    assert(h@.locals =~= with_scope(old(h)@, h@.locals.last()).locals);
    while i < ds.len()
        invariant
            i <= ds.len(),
            h@.locals.len() > 0,
            h@.locals.len() == old(h)@.locals.len(),
            h@ == with_scope(old(h)@, h@.locals.last()),
            decls_ty(old(h)@, ds@) == decls_ty(h@, ds@.skip(i as int)),
        decreases ds.len() - i,
    {
        let ghost before = h@;
        assert(ds@.skip(i as int)[0] == ds@[i as int]);
        assert(ds@.skip(i as int).drop_first() == ds@.skip(i as int + 1));
        match typecheck_decl(h, &ds[i]) {
            Ok(_) => {
                assert(h@.locals =~= with_scope(old(h)@, h@.locals.last()).locals);
            },
            Err(e) => {
                return Err(e);
            },
        }
        i += 1;
    }
    assert(ds@.skip(i as int) =~= seq![]);
    Ok(())
}

/// Checks the block `b` of a function with the result type `ret` in a
/// scope of its own, and says whether it ends the function on every path.
pub fn typecheck_scoped(h: &mut TypeCtxt, ret: &RetTy, b: &Vec<Node<Stmt>>) -> (r: TcResult<bool>)
    requires
        old(h)@.locals.len() > 0,
    ensures
        match r {
            Ok(ends) => scoped(old(h)@, ret@, b@) == Some(ends) && final(h)@ == old(h)@,
            Err(_) => scoped(old(h)@, ret@, b@) is None,
        },
    decreases b, 1nat,
{
    h.push_scope();
    let result = typecheck_block(h, ret, b);
    match result {
        Ok(ends) => {
            h.pop_scope();
            assert(h@.locals =~= old(h)@.locals);
            Ok(ends)
        },
        Err(e) => Err(e),
    }
}

/// Checks the statements `b` of a function with the result type `ret`, one
/// after the other, and says whether they end the function on every path.
pub fn typecheck_block(h: &mut TypeCtxt, ret: &RetTy, b: &Vec<Node<Stmt>>) -> (r: TcResult<bool>)
    requires
        old(h)@.locals.len() > 0,
    ensures
        match r {
            Ok(ends) => block_ty(old(h)@, ret@, b@) == Some((final(h)@.locals.last(), ends))
                && final(h)@ == with_scope(old(h)@, final(h)@.locals.last()),
            Err(_) => block_ty(old(h)@, ret@, b@) is None,
        },
    decreases b, 0nat,
{
    let mut i: usize = 0;
    assert(b@.skip(0) == b@);
    assert(h@.locals =~= with_scope(old(h)@, h@.locals.last()).locals);
    while i < b.len()
        invariant
            i <= b.len(),
            h@.locals.len() > 0,
            h@.locals.len() == old(h)@.locals.len(),
            h@ == with_scope(old(h)@, h@.locals.last()),
            block_ty(old(h)@, ret@, b@) == block_ty(h@, ret@, b@.skip(i as int)),
        decreases b.len() - i,
    {
        assert(b@.skip(i as int)[0] == b@[i as int]);
        assert(b@.skip(i as int).drop_first() == b@.skip(i as int + 1));
        assert(b@.skip(i as int).len() == b.len() - i);
        match typecheck_stmt(h, ret, &b[i]) {
            Ok(ends) => {
                assert(h@.locals =~= with_scope(old(h)@, h@.locals.last()).locals);
                if ends {
                    if i + 1 == b.len() {
                        return Ok(true);
                    } else {
                        return Err(
                            mismatch("statement after a return", "the end of the block", "more"),
                        );
                    }
                }
            },
            Err(e) => {
                return Err(e);
            },
        }
        i += 1;
    }
    assert(b@.skip(i as int) =~= seq![]);
    Ok(false)
}

/// Checks the assignment of `rhs` to `lhs`.
pub fn typecheck_assn(h: &TypeCtxt, lhs: &Node<Exp>, rhs: &Node<Exp>) -> (r: TcResult<()>)
    ensures
        r is Ok <==> ((lhs.elt is Id || lhs.elt is Index) && (exp_ty(h@, lhs.elt) matches Some(t)
            && (exp_ty(h@, rhs.elt) matches Some(u) && is_subtype(u, t)))),
{
    match &lhs.elt {
        Exp::Id(_) => {},
        Exp::Index(_, _) => {},
        _ => {
            return Err(mismatch("cannot assign to this", "a variable", "another"));
        },
    }
    let t: Ty = match typecheck_exp(h, lhs) {
        Ok(t) => t,
        Err(e) => {
            return Err(e);
        },
    };
    let u: Ty = match typecheck_exp(h, rhs) {
        Ok(u) => u,
        Err(e) => {
            return Err(e);
        },
    };
    if subtype(h, &u, &t) {
        Ok(())
    } else {
        Err(mismatch("assignment of the wrong type", "the variable's", "another"))
    }
}

/// Whether a function with the result type `ret` can end by giving back
/// `v`.
pub open spec fn can_give_back(cx: TypeCtxtView, ret: RetTyView, v: Option<Node<Exp>>) -> bool {
    match v {
        None => ret is RetVoid,
        Some(e) => match ret {
            RetTyView::RetVal(t) => exp_ty(cx, e.elt) matches Some(u) && is_subtype(u, *t),
            RetTyView::RetVoid => false,
        },
    }
}

/// Checks that a function with the result type `ret` can end by giving
/// back `v`.
pub fn typecheck_give_back(h: &TypeCtxt, ret: &RetTy, v: &Option<Node<Exp>>) -> (r: TcResult<()>)
    ensures
        r is Ok <==> can_give_back(h@, ret@, *v),
{
    match v {
        None => match ret {
            RetTy::RetVoid => Ok(()),
            RetTy::RetVal(_) => Err(mismatch("nothing is given back", "a value", "none")),
        },
        Some(e) => match ret {
            RetTy::RetVal(t) => match typecheck_exp(h, e) {
                Ok(u) => if subtype(h, &u, t) {
                    Ok(())
                } else {
                    Err(mismatch("a value of the wrong type is given back", "the function's", "another"))
                },
                Err(err) => Err(err),
            },
            RetTy::RetVoid => Err(mismatch("a value is given back", "none", "a value")),
        },
    }
}

/// Whether `f` can be called as a statement with the arguments `args`: it
/// is a function without a result, and the arguments fit its parameters.
pub open spec fn can_call(cx: TypeCtxtView, f: Exp, args: Seq<Node<Exp>>) -> bool {
    exp_ty(cx, f) matches Some(TyView::TRef(RefTyView::RFun(ps, r))) && *r is RetVoid && args_fit(
        cx,
        args,
        ps,
    )
}

/// Checks that `f` can be called as a statement with the arguments `args`.
pub fn typecheck_scall(h: &TypeCtxt, f: &Node<Exp>, args: &Vec<Node<Exp>>) -> (r: TcResult<()>)
    ensures
        r is Ok <==> can_call(h@, f.elt, args@),
{
    let t: Ty = match typecheck_exp(h, f) {
        Ok(t) => t,
        Err(err) => {
            return Err(err);
        },
    };
    match &t {
        Ty::TRef(RefTy::RFun(ps, r)) => {
            assert(t@ == TyView::TRef(
                RefTyView::RFun(crate::ast::tys_view(ps@), Box::new(crate::ast::ret_view(**r))),
            ));
            match &**r {
                RetTy::RetVoid => typecheck_args(h, args, ps),
                RetTy::RetVal(_) => Err(mismatch("the call gives a value", "void", "a value")),
            }
        },
        _ => Err(not_callable("only a function can be called", "no function")),
    }
}

/// Checks that the condition `c` is a boolean.
pub fn typecheck_cond(h: &TypeCtxt, c: &Node<Exp>) -> (r: TcResult<()>)
    ensures
        r is Ok <==> exp_ty(h@, c.elt) == Some(TyView::TBool),
{
    match typecheck_exp(h, c) {
        Ok(Ty::TBool) => Ok(()),
        Ok(_) => Err(mismatch("the condition must be a boolean", "bool", "another")),
        Err(err) => Err(err),
    }
}

/// Checks the counting loop `s`.
pub fn typecheck_for(h: &mut TypeCtxt, ret: &RetTy, s: &Node<Stmt>) -> (r: TcResult<()>)
    requires
        old(h)@.locals.len() > 0,
        s.elt is For,
    ensures
        match r {
            Ok(_) => stmt_ty(old(h)@, ret@, s.elt) == Some((old(h)@.locals.last(), false))
                && final(h)@ == old(h)@,
            Err(_) => stmt_ty(old(h)@, ret@, s.elt) is None,
        },
    decreases s, 0nat,
{
    match &s.elt {
        Stmt::For(vds, c, upd, body) => {
            h.push_scope();
            match typecheck_decls(h, vds) {
                Ok(_) => {},
                Err(err) => {
                    return Err(err);
                },
            }
            let ghost inner = h@;
            match c {
                Some(e) => match typecheck_cond(h, e) {
                    Ok(_) => {},
                    Err(err) => {
                        return Err(err);
                    },
                },
                None => {},
            }
            match upd {
                Some(u) => match typecheck_stmt(h, ret, u) {
                    Ok(ends) => {
                        if ends {
                            return Err(
                                mismatch("the step of a loop ends the function", "a step", "an end"),
                            );
                        }
                    },
                    Err(err) => {
                        return Err(err);
                    },
                },
                None => {
                    assert(h@.locals =~= with_scope(inner, h@.locals.last()).locals);
                },
            }
            match typecheck_scoped(h, ret, body) {
                Ok(_) => {},
                Err(err) => {
                    return Err(err);
                },
            }
            h.pop_scope();
            assert(h@.locals =~= old(h)@.locals);
            Ok(())
        },
        _ => Ok(()),
    }
}

/// Checks the statement `s` of a function with the result type `ret`,
/// makes the declaration where it is one, and says whether `s` ends the
/// function on every path.
pub fn typecheck_stmt(h: &mut TypeCtxt, ret: &RetTy, s: &Node<Stmt>) -> (r: TcResult<bool>)
    requires
        old(h)@.locals.len() > 0,
    ensures
        match r {
            Ok(ends) => stmt_ty(old(h)@, ret@, s.elt) == Some(
                (final(h)@.locals.last(), ends),
            ) && final(h)@ == with_scope(old(h)@, final(h)@.locals.last()),
            Err(_) => stmt_ty(old(h)@, ret@, s.elt) is None,
        },
    decreases s, 1nat,
{
    assert(h@.locals =~= with_scope(h@, h@.locals.last()).locals);
    match &s.elt {
        Stmt::Assn(lhs, rhs) => match typecheck_assn(h, lhs, rhs) {
            Ok(_) => Ok(false),
            Err(e) => Err(e),
        },
        Stmt::Decl(vd) => match typecheck_decl(h, vd) {
            Ok(_) => {
                assert(h@.locals =~= with_scope(old(h)@, h@.locals.last()).locals);
                Ok(false)
            },
            Err(e) => Err(e),
        },
        Stmt::Ret(v) => match typecheck_give_back(h, ret, v) {
            Ok(_) => Ok(true),
            Err(e) => Err(e),
        },
        Stmt::SCall(f, args) => match typecheck_scall(h, f, args) {
            Ok(_) => Ok(false),
            Err(e) => Err(e),
        },
        Stmt::If(c, b1, b2) => {
            match typecheck_cond(h, c) {
                Ok(_) => {},
                Err(err) => {
                    return Err(err);
                },
            }
            let r1: bool = match typecheck_scoped(h, ret, b1) {
                Ok(r) => r,
                Err(err) => {
                    return Err(err);
                },
            };
            let r2: bool = match typecheck_scoped(h, ret, b2) {
                Ok(r) => r,
                Err(err) => {
                    return Err(err);
                },
            };
            Ok(r1 && r2)
        },
        Stmt::For(_, _, _, _) => match typecheck_for(h, ret, s) {
            Ok(_) => Ok(false),
            Err(e) => Err(e),
        },
        Stmt::While(c, body) => {
            match typecheck_cond(h, c) {
                Ok(_) => {},
                Err(err) => {
                    return Err(err);
                },
            }
            match typecheck_scoped(h, ret, body) {
                Ok(_) => Ok(false),
                Err(err) => Err(err),
            }
        },
    }
}

} // verus!
