//! The checks of functions and of whole programs.

use vstd::prelude::*;
use crate::ast::{tys_view, Arg, Decl, FDecl, Field, RefTy, RefTyView, Ty, TyView};
use crate::typechecker::exp::{
    exp_ty, mismatch, ret_ok, tys_ok, typecheck_exp, typecheck_ret, typecheck_tys,
};
use crate::typechecker::stmt::{enter, scoped, typecheck_scoped, with_scope};
use crate::typechecker::{fields_view, TcResult, TypeCtxt, TypeCtxtView};

verus! {

/// The types of the parameters `args`, in order.
pub open spec fn arg_tys(args: Seq<Arg>) -> Seq<TyView>
    decreases args.len(),
{
    if args.len() == 0 {
        seq![]
    } else {
        arg_tys(args.drop_last()).push(args.last().ty@)
    }
}

/// The types of the fields `fs`, in order.
pub open spec fn field_tys(fs: Seq<Field>) -> Seq<TyView>
    decreases fs.len(),
{
    if fs.len() == 0 {
        seq![]
    } else {
        field_tys(fs.drop_last()).push(fs.last().field_type@)
    }
}

/// The type of the function `f` as a value.
pub open spec fn fun_ty(f: FDecl) -> TyView {
    TyView::TRef(RefTyView::RFun(arg_tys(f.args@), Box::new(f.fret_ty@)))
}

/// The scope that declares the parameters `args`, where their names
/// differ.
pub open spec fn args_scope(args: Seq<Arg>) -> Option<Map<Seq<char>, TyView>>
    decreases args.len(),
{
    if args.len() == 0 {
        Some(Map::empty())
    } else {
        match args_scope(args.drop_last()) {
            Some(m) => if m.contains_key(args.last().id@) {
                None
            } else {
                Some(m.insert(args.last().id@, args.last().ty@))
            },
            None => None,
        }
    }
}

/// Whether the function `f` is well typed: its result type and the types
/// of its parameters are well formed, the names of its parameters differ,
/// and its body, in a scope of its own inside the scope of the parameters,
/// is well typed and ends the function on every path.
pub open spec fn fdecl_ok(cx: TypeCtxtView, f: FDecl) -> bool {
    &&& ret_ok(cx, f.fret_ty@)
    &&& tys_ok(cx, arg_tys(f.args@))
    &&& args_scope(f.args@) matches Some(m) && scoped(
        with_scope(enter(cx), m),
        f.fret_ty@,
        f.body@,
    ) == Some(true)
}

/// The types of the parameters `args`, in order.
pub fn arg_types(args: &Vec<Arg>) -> (r: Vec<Ty>)
    ensures
        tys_view(r@) == arg_tys(args@),
{
    let mut r: Vec<Ty> = Vec::new();
    let mut i: usize = 0;
    assert(args@.take(0) =~= seq![]);
    while i < args.len()
        invariant
            i <= args.len(),
            tys_view(r@) == arg_tys(args@.take(i as int)),
        decreases args.len() - i,
    {
        assert(args@.take(i as int + 1).drop_last() == args@.take(i as int));
        let ghost before = r@;
        r.push(args[i].ty.clone());
        assert(r@.drop_last() == before);
        i += 1;
    }
    assert(args@.take(i as int) == args@);
    r
}

/// The types of the fields `fs`, in order.
pub fn field_types(fs: &Vec<Field>) -> (r: Vec<Ty>)
    ensures
        tys_view(r@) == field_tys(fs@),
{
    let mut r: Vec<Ty> = Vec::new();
    let mut i: usize = 0;
    assert(fs@.take(0) =~= seq![]);
    while i < fs.len()
        invariant
            i <= fs.len(),
            tys_view(r@) == field_tys(fs@.take(i as int)),
        decreases fs.len() - i,
    {
        assert(fs@.take(i as int + 1).drop_last() == fs@.take(i as int));
        let ghost before = r@;
        r.push(fs[i].field_type.clone());
        assert(r@.drop_last() == before);
        i += 1;
    }
    assert(fs@.take(i as int) == fs@);
    r
}

/// A copy of the fields `fs`, item by item.
pub fn clone_fields(fs: &Vec<Field>) -> (r: Vec<Field>)
    ensures
        fields_view(r@) == fields_view(fs@),
{
    let mut r: Vec<Field> = Vec::new();
    let mut i: usize = 0;
    while i < fs.len()
        invariant
            i <= fs.len(),
            r@.len() == i,
            forall|k: int|
                0 <= k < i ==> (#[trigger] r@[k]).field_name@ == fs@[k].field_name@ && r@[k].field_type@
                    == fs@[k].field_type@,
        decreases fs.len() - i,
    {
        r.push(Field { field_name: fs[i].field_name.clone(), field_type: fs[i].field_type.clone() });
        i += 1;
    }
    assert(fields_view(r@) =~= fields_view(fs@));
    r
}

/// Declares the parameters `args` in the innermost scope, which must be
/// empty.
fn declare_args(h: &mut TypeCtxt, args: &Vec<Arg>) -> (r: TcResult<()>)
    requires
        old(h)@.locals.len() > 0,
        old(h)@.locals.last() == Map::<Seq<char>, TyView>::empty(),
    ensures
        match r {
            Ok(_) => args_scope(args@) matches Some(m) && final(h)@ == with_scope(old(h)@, m),
            Err(_) => args_scope(args@) is None,
        },
{
    let mut i: usize = 0;
    assert(args@.take(0) =~= seq![]);
    assert(h@.locals =~= with_scope(old(h)@, h@.locals.last()).locals);
    while i < args.len()
        invariant
            i <= args.len(),
            h@.locals.len() > 0,
            h@.locals.len() == old(h)@.locals.len(),
            h@ == with_scope(old(h)@, h@.locals.last()),
            args_scope(args@.take(i as int)) == Some(h@.locals.last()),
        decreases args.len() - i,
    {
        assert(args@.take(i as int + 1).drop_last() == args@.take(i as int));
        if h.declares_local(args[i].id.as_str()) {
            proof {
                if args_scope(args@) is Some {
                    lemma_args_scope_prefix(args@, i as int + 1);
                }
            }
            return Err(mismatch("parameter declared twice", "a new name", "a used one"));
        }
        h.add_local(args[i].id.clone(), args[i].ty.clone());
        assert(h@.locals =~= with_scope(old(h)@, h@.locals.last()).locals);
        i += 1;
    }
    assert(args@.take(i as int) == args@);
    Ok(())
}

/// Parameters whose names differ begin with parameters whose names differ.
pub proof fn lemma_args_scope_prefix(args: Seq<Arg>, n: int)
    requires
        0 <= n <= args.len(),
        args_scope(args) is Some,
    ensures
        args_scope(args.take(n)) is Some,
    decreases args.len(),
{
    if n == args.len() {
        assert(args.take(n) == args);
    } else {
        lemma_args_scope_prefix(args.drop_last(), n);
        assert(args.drop_last().take(n) == args.take(n));
    }
}

/// Checks the function `f`.
pub fn typecheck_fdecl(h: &mut TypeCtxt, f: &FDecl) -> (r: TcResult<()>)
    requires
        old(h)@.locals.len() > 0,
    ensures
        r is Ok <==> fdecl_ok(old(h)@, *f),
        r is Ok ==> final(h)@ == old(h)@,
{
    match typecheck_ret(h, &f.fret_ty) {
        Ok(_) => {},
        Err(e) => {
            return Err(e);
        },
    }
    let tys = arg_types(&f.args);
    match typecheck_tys(h, &tys) {
        Ok(_) => {},
        Err(e) => {
            return Err(e);
        },
    }
    h.push_scope();
    match declare_args(h, &f.args) {
        Ok(_) => {},
        Err(e) => {
            return Err(e);
        },
    }
    match typecheck_scoped(h, &f.fret_ty, &f.body) {
        Ok(true) => {},
        Ok(false) => {
            return Err(mismatch("the function does not end on every path", "an end", "none"));
        },
        Err(e) => {
            return Err(e);
        },
    }
    h.pop_scope();
    assert(h@.locals =~= old(h)@.locals);
    Ok(())
}

/// The struct types that the program `p` declares, where no two have one
/// name.
pub open spec fn struct_table(p: Seq<Decl>) -> Option<Map<Seq<char>, Seq<(Seq<char>, TyView)>>>
    decreases p.len(),
{
    if p.len() == 0 {
        Some(Map::empty())
    } else {
        match struct_table(p.drop_last()) {
            Some(m) => match p.last() {
                Decl::GTDecl(td) => if m.contains_key(td.elt.td_id@) {
                    None
                } else {
                    Some(m.insert(td.elt.td_id@, fields_view(td.elt.td_node@)))
                },
                _ => Some(m),
            },
            None => None,
        }
    }
}

/// The functions that the program `p` declares, each with its type as a
/// value, where no two have one name.
pub open spec fn fun_table(p: Seq<Decl>) -> Option<Map<Seq<char>, TyView>>
    decreases p.len(),
{
    if p.len() == 0 {
        Some(Map::empty())
    } else {
        match fun_table(p.drop_last()) {
            Some(m) => match p.last() {
                Decl::GFDecl(f) => if m.contains_key(f.elt.fname@) {
                    None
                } else {
                    Some(m.insert(f.elt.fname@, fun_ty(f.elt)))
                },
                _ => Some(m),
            },
            None => None,
        }
    }
}

/// The context `cx` with the global variable `id` of type `t` declared.
pub open spec fn with_global(cx: TypeCtxtView, id: Seq<char>, t: TyView) -> TypeCtxtView {
    TypeCtxtView {
        locals: cx.locals,
        globals: cx.globals.insert(id, t),
        functions: cx.functions,
        structs: cx.structs,
    }
}

/// Whether the declarations `p` are well typed one after the other. A
/// global variable has a name that no function and no earlier global
/// variable has, and takes the type of its first value, which may use the
/// functions and the earlier global variables. A function is well typed. A
/// struct type has fields of well formed types.
pub open spec fn decls_ok(cx: TypeCtxtView, p: Seq<Decl>) -> bool
    decreases p.len(),
{
    p.len() == 0 || match p[0] {
        Decl::GVDecl(g) => !cx.globals.contains_key(g.elt.name@) && (exp_ty(
            cx,
            g.elt.init.elt,
        ) matches Some(t) && decls_ok(with_global(cx, g.elt.name@, t), p.drop_first())),
        Decl::GFDecl(f) => fdecl_ok(cx, f.elt) && decls_ok(cx, p.drop_first()),
        Decl::GTDecl(td) => tys_ok(cx, field_tys(td.elt.td_node@)) && decls_ok(
            cx,
            p.drop_first(),
        ),
    }
}

/// Whether the program `p` is well typed: no two of its struct types and
/// no two of its functions have one name, and with all of them declared its
/// declarations are well typed one after the other.
pub open spec fn prog_ok(p: Seq<Decl>) -> bool {
    match (struct_table(p), fun_table(p)) {
        (Some(structs), Some(globals)) => decls_ok(
            TypeCtxtView {
                locals: seq![Map::empty()],
                globals,
                functions: Map::empty(),
                structs,
            },
            p,
        ),
        _ => false,
    }
}

/// Struct types without a clash of names begin with such.
pub proof fn lemma_struct_table_prefix(p: Seq<Decl>, n: int)
    requires
        0 <= n <= p.len(),
        struct_table(p) is Some,
    ensures
        struct_table(p.take(n)) is Some,
    decreases p.len(),
{
    if n == p.len() {
        assert(p.take(n) == p);
    } else {
        lemma_struct_table_prefix(p.drop_last(), n);
        assert(p.drop_last().take(n) == p.take(n));
    }
}

/// Functions without a clash of names begin with such.
pub proof fn lemma_fun_table_prefix(p: Seq<Decl>, n: int)
    requires
        0 <= n <= p.len(),
        fun_table(p) is Some,
    ensures
        fun_table(p.take(n)) is Some,
    decreases p.len(),
{
    if n == p.len() {
        assert(p.take(n) == p);
    } else {
        lemma_fun_table_prefix(p.drop_last(), n);
        assert(p.drop_last().take(n) == p.take(n));
    }
}

/// Declares the struct types of `prog`.
fn declare_structs(h: &mut TypeCtxt, prog: &Vec<Decl>) -> (r: TcResult<()>)
    requires
        old(h)@.structs == Map::<Seq<char>, Seq<(Seq<char>, TyView)>>::empty(),
    ensures
        match r {
            Ok(_) => struct_table(prog@) == Some(final(h)@.structs) && final(h)@.locals == old(
                h,
            )@.locals && final(h)@.globals == old(h)@.globals && final(h)@.functions == old(
                h,
            )@.functions,
            Err(_) => struct_table(prog@) is None,
        },
{
    let mut i: usize = 0;
    assert(prog@.take(0) =~= seq![]);
    while i < prog.len()
        invariant
            i <= prog.len(),
            struct_table(prog@.take(i as int)) == Some(h@.structs),
            h@.locals == old(h)@.locals,
            h@.globals == old(h)@.globals,
            h@.functions == old(h)@.functions,
        decreases prog.len() - i,
    {
        assert(prog@.take(i as int + 1).drop_last() == prog@.take(i as int));
        match &prog[i] {
            Decl::GTDecl(td) => {
                if h.lookup_struct_option(td.elt.td_id.as_str()).is_some() {
                    proof {
                        if struct_table(prog@) is Some {
                            lemma_struct_table_prefix(prog@, i as int + 1);
                        }
                    }
                    return Err(mismatch("struct type declared twice", "a new name", "a used one"));
                }
                h.add_struct(td.elt.td_id.clone(), clone_fields(&td.elt.td_node));
            },
            _ => {},
        }
        i += 1;
    }
    assert(prog@.take(i as int) == prog@);
    Ok(())
}

/// Declares the functions of `prog` as global values.
fn declare_functions(h: &mut TypeCtxt, prog: &Vec<Decl>) -> (r: TcResult<()>)
    requires
        old(h)@.globals == Map::<Seq<char>, TyView>::empty(),
    ensures
        match r {
            Ok(_) => fun_table(prog@) == Some(final(h)@.globals) && final(h)@.locals == old(
                h,
            )@.locals && final(h)@.structs == old(h)@.structs && final(h)@.functions == old(
                h,
            )@.functions,
            Err(_) => fun_table(prog@) is None,
        },
{
    let mut i: usize = 0;
    assert(prog@.take(0) =~= seq![]);
    while i < prog.len()
        invariant
            i <= prog.len(),
            fun_table(prog@.take(i as int)) == Some(h@.globals),
            h@.locals == old(h)@.locals,
            h@.structs == old(h)@.structs,
            h@.functions == old(h)@.functions,
        decreases prog.len() - i,
    {
        assert(prog@.take(i as int + 1).drop_last() == prog@.take(i as int));
        match &prog[i] {
            Decl::GFDecl(f) => {
                if h.lookup_global_option(f.elt.fname.as_str()).is_some() {
                    proof {
                        if fun_table(prog@) is Some {
                            lemma_fun_table_prefix(prog@, i as int + 1);
                        }
                    }
                    return Err(mismatch("function declared twice", "a new name", "a used one"));
                }
                let t = Ty::TRef(
                    RefTy::RFun(arg_types(&f.elt.args), Box::new(f.elt.fret_ty.clone())),
                );
                assert(t@ == fun_ty(f.elt));
                h.add_global(f.elt.fname.clone(), t);
            },
            _ => {},
        }
        i += 1;
    }
    assert(prog@.take(i as int) == prog@);
    Ok(())
}

/// Checks the program `prog`.
pub fn typecheck_prog(prog: &Vec<Decl>) -> (r: TcResult<()>)
    ensures
        r is Ok <==> prog_ok(prog@),
{
    let mut h = TypeCtxt::empty();
    match declare_structs(&mut h, prog) {
        Ok(_) => {},
        Err(e) => {
            return Err(e);
        },
    }
    match declare_functions(&mut h, prog) {
        Ok(_) => {},
        Err(e) => {
            return Err(e);
        },
    }
    let ghost start = h@;
    let mut i: usize = 0;
    assert(prog@.skip(0) == prog@);
    while i < prog.len()
        invariant
            i <= prog.len(),
            h@.locals.len() > 0,
            prog_ok(prog@) == decls_ok(h@, prog@.skip(i as int)),
        decreases prog.len() - i,
    {
        assert(prog@.skip(i as int)[0] == prog@[i as int]);
        assert(prog@.skip(i as int).drop_first() == prog@.skip(i as int + 1));
        match &prog[i] {
            Decl::GVDecl(g) => {
                if h.lookup_global_option(g.elt.name.as_str()).is_some() {
                    return Err(mismatch("global declared twice", "a new name", "a used one"));
                }
                match typecheck_exp(&h, &g.elt.init) {
                    Ok(t) => {
                        let ghost before = h@;
                        h.add_global(g.elt.name.clone(), t);
                        assert(h@ == with_global(before, g.elt.name@, t@));
                    },
                    Err(e) => {
                        return Err(e);
                    },
                }
            },
            Decl::GFDecl(f) => match typecheck_fdecl(&mut h, &f.elt) {
                Ok(_) => {},
                Err(e) => {
                    return Err(e);
                },
            },
            Decl::GTDecl(td) => {
                let tys = field_types(&td.elt.td_node);
                match typecheck_tys(&h, &tys) {
                    Ok(_) => {},
                    Err(e) => {
                        return Err(e);
                    },
                }
            },
        }
        i += 1;
    }
    assert(prog@.skip(i as int) =~= seq![]);
    Ok(())
}

} // verus!
