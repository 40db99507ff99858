use dclang::ast::{
    Arg, BinOp, Decl, Exp, FDecl, Field, GDecl, Node, RangeTy, RefTy, RetTy, Stmt, TDecl, Ty,
    UnOp, VDecl,
};
use dclang::common::{Span, TypeError, TypeErrorKind};
use dclang::typechecker::exp::{typecheck_exp, typecheck_ref, typecheck_ret, typecheck_ty};
use dclang::typechecker::prog::{typecheck_fdecl, typecheck_prog};
use dclang::typechecker::stmt::{typecheck_block, typecheck_stmt};
use dclang::typechecker::subtype::{
    ref_eq, ret_eq, subtype, subtype_fields, subtype_list, subtype_ref, subtype_ret, ty_eq,
};
use dclang::typechecker::{type_error, TypeCtxt};

fn at<T>(elt: T) -> Node<T> {
    Node { elt, loc: RangeTy { start: 0, end: 0 } }
}

fn num(i: i64) -> Node<Exp> {
    at(Exp::CInt(i))
}

fn boolean(b: bool) -> Node<Exp> {
    at(Exp::CBool(b))
}

fn var(name: &str) -> Node<Exp> {
    at(Exp::Id(name.to_string()))
}

fn bop(op: BinOp, l: Node<Exp>, r: Node<Exp>) -> Node<Exp> {
    at(Exp::Bop(op, Box::new(l), Box::new(r)))
}

fn call(f: &str, args: Vec<Node<Exp>>) -> Node<Exp> {
    at(Exp::Call(Box::new(var(f)), args))
}

fn array_of(t: Ty) -> Ty {
    Ty::TRef(RefTy::RArray(Box::new(t)))
}

fn string() -> Ty {
    Ty::TRef(RefTy::RString)
}

fn function(args: Vec<Ty>, ret: RetTy) -> Ty {
    Ty::TRef(RefTy::RFun(args, Box::new(ret)))
}

fn decl(name: &str, init: Node<Exp>) -> Node<Stmt> {
    at(Stmt::Decl(VDecl { vd_id: name.to_string(), vd_node: init }))
}

fn ret(e: Option<Node<Exp>>) -> Node<Stmt> {
    at(Stmt::Ret(e))
}

fn fun_decl(name: &str, args: Vec<(&str, Ty)>, ret: RetTy, body: Vec<Node<Stmt>>) -> FDecl {
    FDecl {
        fret_ty: ret,
        fname: name.to_string(),
        args: args.into_iter().map(|(id, ty)| Arg { ty, id: id.to_string() }).collect(),
        body,
    }
}

fn kind_of(r: Result<Ty, TypeError>) -> TypeErrorKind {
    r.err().unwrap().kind
}

#[test]
fn positions_and_errors_are_made() {
    let s = Span::new(3, 9);
    assert_eq!((s.start, s.end), (3, 9));
    let d = Span::dummy();
    assert_eq!((d.start, d.end), (0, 0));
    let kind = TypeErrorKind::UnknownIdentifier { name: "x".to_string() };
    let e = TypeError::new("unbound".to_string(), s, kind);
    assert_eq!(e.msg, "unbound");
    assert_eq!((e.span.start, e.span.end), (3, 9));
    assert!(matches!(e.kind, TypeErrorKind::UnknownIdentifier { name } if name == "x"));
    let kind = TypeErrorKind::NotCallable { ty: "int".to_string() };
    let e = type_error("no function".to_string(), d, kind);
    assert_eq!(e.msg, "no function");
    assert!(matches!(e.kind, TypeErrorKind::NotCallable { ty } if ty == "int"));
}

#[test]
fn types_are_equal_part_by_part() {
    let f = || function(vec![Ty::TInt, string()], RetTy::RetVal(Box::new(Ty::TBool)));
    let g = || function(vec![Ty::TInt, string()], RetTy::RetVoid);
    assert!(ty_eq(&f(), &f()));
    assert!(!ty_eq(&f(), &g()));
    assert!(!ty_eq(&function(vec![Ty::TInt], RetTy::RetVoid), &g()));
    assert!(ty_eq(&array_of(array_of(Ty::TInt)), &array_of(array_of(Ty::TInt))));
    assert!(!ty_eq(&array_of(Ty::TInt), &array_of(Ty::TBool)));
    assert!(!ty_eq(&Ty::TRef(RefTy::RString), &Ty::TNullRef(RefTy::RString)));
    assert!(ref_eq(&RefTy::RStruct("a".to_string()), &RefTy::RStruct("a".to_string())));
    assert!(!ref_eq(&RefTy::RStruct("a".to_string()), &RefTy::RStruct("b".to_string())));
    assert!(ret_eq(&RetTy::RetVoid, &RetTy::RetVoid));
    assert!(!ret_eq(&RetTy::RetVoid, &RetTy::RetVal(Box::new(Ty::TInt))));
    assert_eq!(f().clone(), f());
}

#[test]
fn values_stand_for_values_of_their_own_kind() {
    let h = TypeCtxt::empty();
    assert!(subtype(&h, &Ty::TInt, &Ty::TInt));
    assert!(subtype(&h, &Ty::TBool, &Ty::TBool));
    assert!(!subtype(&h, &Ty::TInt, &Ty::TBool));
    assert!(!subtype(&h, &Ty::TInt, &string()));
    assert!(subtype(&h, &string(), &string()));
    assert!(subtype(&h, &string(), &Ty::TNullRef(RefTy::RString)));
    assert!(subtype(&h, &Ty::TNullRef(RefTy::RString), &Ty::TNullRef(RefTy::RString)));
    assert!(subtype(&h, &Ty::TNullRef(RefTy::RString), &string()));
    assert!(subtype(&h, &array_of(Ty::TInt), &array_of(Ty::TInt)));
    assert!(!subtype(&h, &array_of(string()), &array_of(Ty::TNullRef(RefTy::RString))));
    assert!(!subtype(&h, &string(), &array_of(Ty::TInt)));
    assert!(subtype_ref(&h, &RefTy::RStruct("a".to_string()), &RefTy::RStruct("a".to_string())));
    assert!(!subtype_ref(&h, &RefTy::RStruct("a".to_string()), &RefTy::RStruct("b".to_string())));
    assert!(!subtype_fields(&h, "a", "a"));
    assert!(subtype_ret(&h, &RetTy::RetVoid, &RetTy::RetVoid));
    assert!(!subtype_ret(&h, &RetTy::RetVoid, &RetTy::RetVal(Box::new(Ty::TInt))));
    assert!(subtype_ret(
        &h,
        &RetTy::RetVal(Box::new(string())),
        &RetTy::RetVal(Box::new(Ty::TNullRef(RefTy::RString)))
    ));
    assert!(subtype_list(&h, &[], &[]));
    assert!(subtype_list(&h, &[Ty::TInt, string()], &[Ty::TInt, string()]));
    assert!(!subtype_list(&h, &[Ty::TInt], &[Ty::TInt, Ty::TInt]));
    assert!(!subtype_list(&h, &[Ty::TInt, Ty::TBool], &[Ty::TInt, Ty::TInt]));
}

#[test]
fn a_function_stands_for_one_that_asks_no_more_and_gives_no_less() {
    let h = TypeCtxt::empty();
    let takes = |t: Ty| function(vec![t], RetTy::RetVal(Box::new(Ty::TInt)));
    assert!(subtype(&h, &takes(Ty::TInt), &takes(Ty::TInt)));
    assert!(!subtype(&h, &takes(Ty::TInt), &takes(Ty::TBool)));
    assert!(!subtype(&h, &takes(Ty::TInt), &function(vec![], RetTy::RetVal(Box::new(Ty::TInt)))));
    assert!(!subtype(&h, &takes(Ty::TInt), &function(vec![Ty::TInt], RetTy::RetVoid)));
}

#[test]
fn a_context_keeps_names_in_scopes() {
    let mut h = TypeCtxt::empty();
    assert!(h.lookup_local_option("x").is_none());
    assert!(!h.declares_local("x"));
    h.add_local("x".to_string(), Ty::TInt);
    assert!(h.declares_local("x"));
    h.push_scope();
    assert!(!h.declares_local("x"));
    assert_eq!(h.lookup_local_option("x"), Some(&Ty::TInt));
    h.add_local("x".to_string(), Ty::TBool);
    h.add_local("y".to_string(), string());
    assert_eq!(h.lookup_local_option("x"), Some(&Ty::TBool));
    assert_eq!(h.lookup_var_option("y"), Some(&string()));
    h.pop_scope();
    assert_eq!(h.lookup_local_option("x"), Some(&Ty::TInt));
    assert!(h.lookup_local_option("y").is_none());
    h.pop_scope();
    assert!(h.lookup_local_option("x").is_none());
    h.add_local("z".to_string(), Ty::TInt);
    assert_eq!(h.lookup_local_option("z"), Some(&Ty::TInt));
    h.add_local("z".to_string(), Ty::TBool);
    assert_eq!(h.lookup_local_option("z"), Some(&Ty::TBool));
}

#[test]
fn a_context_keeps_globals_functions_and_structs() {
    let mut h = TypeCtxt::empty();
    assert!(h.lookup_global_option("g").is_none());
    h.add_global("g".to_string(), Ty::TInt);
    assert_eq!(h.lookup_global_option("g"), Some(&Ty::TInt));
    assert_eq!(h.lookup_var_option("g"), Some(&Ty::TInt));
    h.add_local("g".to_string(), Ty::TBool);
    assert_eq!(h.lookup_var_option("g"), Some(&Ty::TBool));
    assert_eq!(h.lookup_global_option("g"), Some(&Ty::TInt));

    assert!(h.lookup_function_option("f").is_none());
    h.add_function("f".to_string(), vec![(Ty::TInt, RetTy::RetVoid)]);
    assert_eq!(h.lookup_function_option("f"), Some(&vec![(Ty::TInt, RetTy::RetVoid)]));

    assert!(h.lookup_struct_option("s").is_none());
    assert!(h.lookup_field_option("s", "a").is_none());
    let fields = vec![
        Field { field_name: "a".to_string(), field_type: Ty::TInt },
        Field { field_name: "b".to_string(), field_type: Ty::TBool },
        Field { field_name: "a".to_string(), field_type: string() },
    ];
    h.add_struct("s".to_string(), fields);
    assert_eq!(h.lookup_struct_option("s").unwrap().len(), 3);
    assert_eq!(h.lookup_field_option("s", "a"), Some(&Ty::TInt));
    assert_eq!(h.lookup_field_option("s", "b"), Some(&Ty::TBool));
    assert!(h.lookup_field_option("s", "c").is_none());
}

#[test]
fn a_type_is_well_formed_where_its_structs_are_declared() {
    let mut h = TypeCtxt::empty();
    h.add_struct("s".to_string(), vec![]);
    let s = || Ty::TRef(RefTy::RStruct("s".to_string()));
    let t = || Ty::TNullRef(RefTy::RStruct("t".to_string()));
    assert!(typecheck_ty(&h, &Ty::TInt).is_ok());
    assert!(typecheck_ty(&h, &s()).is_ok());
    assert!(typecheck_ty(&h, &array_of(s())).is_ok());
    assert!(typecheck_ty(&h, &function(vec![s()], RetTy::RetVal(Box::new(s())))).is_ok());
    let r = typecheck_ty(&h, &t());
    assert!(matches!(r.err().unwrap().kind, TypeErrorKind::UnknownIdentifier { name } if name == "t"));
    assert!(typecheck_ty(&h, &array_of(t())).is_err());
    assert!(typecheck_ty(&h, &function(vec![s(), t()], RetTy::RetVoid)).is_err());
    assert!(typecheck_ty(&h, &function(vec![s()], RetTy::RetVal(Box::new(t())))).is_err());
    assert!(typecheck_ref(&h, &RefTy::RString).is_ok());
    assert!(typecheck_ret(&h, &RetTy::RetVoid).is_ok());
    assert!(typecheck_ret(&h, &RetTy::RetVal(Box::new(t()))).is_err());
}

#[test]
fn expressions_have_types() {
    let mut h = TypeCtxt::empty();
    h.add_global("n".to_string(), Ty::TInt);
    h.add_global("a".to_string(), array_of(Ty::TBool));
    h.add_global("m".to_string(), Ty::TNullRef(RefTy::RArray(Box::new(Ty::TInt))));
    h.add_global("f".to_string(), function(vec![Ty::TInt, Ty::TBool], RetTy::RetVal(Box::new(string()))));
    h.add_global("p".to_string(), function(vec![], RetTy::RetVoid));

    assert_eq!(typecheck_exp(&h, &num(1)).unwrap(), Ty::TInt);
    assert_eq!(typecheck_exp(&h, &boolean(true)).unwrap(), Ty::TBool);
    assert_eq!(typecheck_exp(&h, &at(Exp::CStr("s".to_string()))).unwrap(), string());
    assert_eq!(
        typecheck_exp(&h, &at(Exp::CNull(RefTy::RString))).unwrap(),
        Ty::TNullRef(RefTy::RString)
    );
    assert!(typecheck_exp(&h, &at(Exp::CNull(RefTy::RStruct("s".to_string())))).is_err());
    assert_eq!(typecheck_exp(&h, &var("n")).unwrap(), Ty::TInt);
    assert!(matches!(
        kind_of(typecheck_exp(&h, &var("x"))),
        TypeErrorKind::UnknownIdentifier { name } if name == "x"
    ));

    let arr = at(Exp::CArr(Ty::TInt, vec![num(1), var("n")]));
    assert_eq!(typecheck_exp(&h, &arr).unwrap(), array_of(Ty::TInt));
    let arr = at(Exp::CArr(Ty::TInt, vec![]));
    assert_eq!(typecheck_exp(&h, &arr).unwrap(), array_of(Ty::TInt));
    let arr = at(Exp::CArr(Ty::TInt, vec![num(1), boolean(true)]));
    assert!(matches!(kind_of(typecheck_exp(&h, &arr)), TypeErrorKind::Mismatch { .. }));
    let arr = at(Exp::NewArr(Ty::TBool, Box::new(var("n"))));
    assert_eq!(typecheck_exp(&h, &arr).unwrap(), array_of(Ty::TBool));
    let arr = at(Exp::NewArr(Ty::TBool, Box::new(boolean(true))));
    assert!(typecheck_exp(&h, &arr).is_err());

    let index = |a: &str, i: Node<Exp>| at(Exp::Index(Box::new(var(a)), Box::new(i)));
    assert_eq!(typecheck_exp(&h, &index("a", num(0))).unwrap(), Ty::TBool);
    assert!(typecheck_exp(&h, &index("a", boolean(true))).is_err());
    assert!(typecheck_exp(&h, &index("n", num(0))).is_err());
    assert!(typecheck_exp(&h, &index("m", num(0))).is_err());

    assert_eq!(typecheck_exp(&h, &call("f", vec![num(1), boolean(true)])).unwrap(), string());
    assert!(typecheck_exp(&h, &call("f", vec![num(1)])).is_err());
    assert!(typecheck_exp(&h, &call("f", vec![boolean(true), num(1)])).is_err());
    assert!(typecheck_exp(&h, &call("p", vec![])).is_err());
    assert!(matches!(
        kind_of(typecheck_exp(&h, &call("n", vec![]))),
        TypeErrorKind::NotCallable { .. }
    ));
}

#[test]
fn operators_ask_for_their_operands() {
    let h = TypeCtxt::empty();
    let arithmetic = [
        BinOp::Add, BinOp::Sub, BinOp::Mul, BinOp::IAnd, BinOp::IOr, BinOp::Shl, BinOp::Shr,
        BinOp::Sar,
    ];
    for op in arithmetic {
        assert_eq!(typecheck_exp(&h, &bop(op.clone(), num(1), num(2))).unwrap(), Ty::TInt);
        assert!(typecheck_exp(&h, &bop(op.clone(), num(1), boolean(true))).is_err());
        assert!(typecheck_exp(&h, &bop(op, boolean(true), boolean(true))).is_err());
    }
    for op in [BinOp::Lt, BinOp::Lte, BinOp::Gt, BinOp::Gte] {
        assert_eq!(typecheck_exp(&h, &bop(op.clone(), num(1), num(2))).unwrap(), Ty::TBool);
        assert!(typecheck_exp(&h, &bop(op, boolean(true), boolean(true))).is_err());
    }
    for op in [BinOp::And, BinOp::Or] {
        assert_eq!(
            typecheck_exp(&h, &bop(op.clone(), boolean(true), boolean(false))).unwrap(),
            Ty::TBool
        );
        assert!(typecheck_exp(&h, &bop(op, num(1), num(2))).is_err());
    }
    for op in [BinOp::Eq, BinOp::Neq] {
        assert_eq!(typecheck_exp(&h, &bop(op.clone(), num(1), num(2))).unwrap(), Ty::TBool);
        assert_eq!(
            typecheck_exp(&h, &bop(op.clone(), boolean(true), boolean(false))).unwrap(),
            Ty::TBool
        );
        assert!(typecheck_exp(&h, &bop(op, num(1), boolean(true))).is_err());
    }
    let uop = |op: UnOp, e: Node<Exp>| at(Exp::Uop(op, Box::new(e)));
    assert_eq!(typecheck_exp(&h, &uop(UnOp::Neg, num(1))).unwrap(), Ty::TInt);
    assert_eq!(typecheck_exp(&h, &uop(UnOp::BitNot, num(1))).unwrap(), Ty::TInt);
    assert_eq!(typecheck_exp(&h, &uop(UnOp::LogNot, boolean(true))).unwrap(), Ty::TBool);
    assert!(typecheck_exp(&h, &uop(UnOp::Neg, boolean(true))).is_err());
    assert!(typecheck_exp(&h, &uop(UnOp::LogNot, num(1))).is_err());
    assert!(typecheck_exp(&h, &uop(UnOp::Neg, var("x"))).is_err());
}

#[test]
fn statements_are_checked() {
    let mut h = TypeCtxt::empty();
    h.add_global("n".to_string(), Ty::TInt);
    h.add_global("a".to_string(), array_of(Ty::TInt));
    h.add_global("p".to_string(), function(vec![Ty::TInt], RetTy::RetVoid));
    h.add_global("f".to_string(), function(vec![], RetTy::RetVal(Box::new(Ty::TInt))));
    let void = RetTy::RetVoid;
    let gives_int = RetTy::RetVal(Box::new(Ty::TInt));

    let assign = |l: Node<Exp>, r: Node<Exp>| at(Stmt::Assn(l, r));
    assert_eq!(typecheck_stmt(&mut h, &void, &assign(var("n"), num(1))).ok(), Some(false));
    let elem = at(Exp::Index(Box::new(var("a")), Box::new(num(0))));
    assert_eq!(typecheck_stmt(&mut h, &void, &assign(elem, var("n"))).ok(), Some(false));
    assert!(typecheck_stmt(&mut h, &void, &assign(var("n"), boolean(true))).is_err());
    assert!(typecheck_stmt(&mut h, &void, &assign(num(1), num(1))).is_err());
    assert!(typecheck_stmt(&mut h, &void, &assign(var("x"), num(1))).is_err());

    assert_eq!(typecheck_stmt(&mut h, &void, &ret(None)).ok(), Some(true));
    assert!(typecheck_stmt(&mut h, &void, &ret(Some(num(1)))).is_err());
    assert_eq!(typecheck_stmt(&mut h, &gives_int, &ret(Some(num(1)))).ok(), Some(true));
    assert!(typecheck_stmt(&mut h, &gives_int, &ret(None)).is_err());
    assert!(typecheck_stmt(&mut h, &gives_int, &ret(Some(boolean(true)))).is_err());

    let scall = |f: &str, args: Vec<Node<Exp>>| at(Stmt::SCall(var(f), args));
    assert_eq!(typecheck_stmt(&mut h, &void, &scall("p", vec![num(1)])).ok(), Some(false));
    assert!(typecheck_stmt(&mut h, &void, &scall("p", vec![])).is_err());
    assert!(typecheck_stmt(&mut h, &void, &scall("f", vec![])).is_err());
    assert!(typecheck_stmt(&mut h, &void, &scall("n", vec![])).is_err());

    assert_eq!(typecheck_stmt(&mut h, &void, &decl("x", num(1))).ok(), Some(false));
    assert_eq!(h.lookup_local_option("x"), Some(&Ty::TInt));
    assert!(typecheck_stmt(&mut h, &void, &decl("x", num(2))).is_err());
    assert!(typecheck_stmt(&mut h, &void, &decl("y", var("z"))).is_err());
    assert_eq!(typecheck_stmt(&mut h, &void, &decl("n", boolean(true))).ok(), Some(false));
    assert_eq!(h.lookup_var_option("n"), Some(&Ty::TBool));
}

#[test]
fn blocks_and_loops_are_checked() {
    let mut h = TypeCtxt::empty();
    let void = RetTy::RetVoid;

    let both = at(Stmt::If(boolean(true), vec![ret(None)], vec![ret(None)]));
    assert_eq!(typecheck_stmt(&mut h, &void, &both).ok(), Some(true));
    let one = at(Stmt::If(boolean(true), vec![ret(None)], vec![]));
    assert_eq!(typecheck_stmt(&mut h, &void, &one).ok(), Some(false));
    let bad = at(Stmt::If(num(1), vec![], vec![]));
    assert!(typecheck_stmt(&mut h, &void, &bad).is_err());
    let inner = at(Stmt::If(boolean(true), vec![decl("x", num(1))], vec![decl("x", boolean(true))]));
    assert_eq!(typecheck_stmt(&mut h, &void, &inner).ok(), Some(false));
    assert!(h.lookup_local_option("x").is_none());

    let looping = at(Stmt::While(boolean(true), vec![ret(None)]));
    assert_eq!(typecheck_stmt(&mut h, &void, &looping).ok(), Some(false));
    let bad = at(Stmt::While(num(1), vec![]));
    assert!(typecheck_stmt(&mut h, &void, &bad).is_err());

    let step = at(Stmt::Assn(var("i"), bop(BinOp::Add, var("i"), num(1))));
    let counting = at(Stmt::For(
        vec![VDecl { vd_id: "i".to_string(), vd_node: num(0) }],
        Some(bop(BinOp::Lt, var("i"), num(10))),
        Some(Box::new(step)),
        vec![decl("j", var("i"))],
    ));
    assert_eq!(typecheck_stmt(&mut h, &void, &counting).ok(), Some(false));
    assert!(h.lookup_local_option("i").is_none());
    let bare = at(Stmt::For(vec![], None, None, vec![]));
    assert_eq!(typecheck_stmt(&mut h, &void, &bare).ok(), Some(false));
    let twice = at(Stmt::For(
        vec![
            VDecl { vd_id: "i".to_string(), vd_node: num(0) },
            VDecl { vd_id: "i".to_string(), vd_node: num(1) },
        ],
        None,
        None,
        vec![],
    ));
    assert!(typecheck_stmt(&mut h, &void, &twice).is_err());
    let ends = at(Stmt::For(vec![], None, Some(Box::new(ret(None))), vec![]));
    assert!(typecheck_stmt(&mut h, &void, &ends).is_err());
    let bad = at(Stmt::For(vec![], Some(num(1)), None, vec![]));
    assert!(typecheck_stmt(&mut h, &void, &bad).is_err());

    assert_eq!(typecheck_block(&mut h, &void, &vec![]).ok(), Some(false));
    let early = vec![ret(None), decl("q", num(1))];
    assert!(typecheck_block(&mut h, &void, &early).is_err());
    let fine = vec![decl("q", num(1)), ret(None)];
    assert_eq!(typecheck_block(&mut h, &void, &fine).ok(), Some(true));
}

#[test]
fn functions_are_checked() {
    let mut h = TypeCtxt::empty();
    let id = fun_decl("id", vec![("x", Ty::TInt)], RetTy::RetVal(Box::new(Ty::TInt)), vec![ret(Some(var("x")))]);
    assert!(typecheck_fdecl(&mut h, &id).is_ok());
    assert!(h.lookup_local_option("x").is_none());
    let twice = fun_decl("f", vec![("x", Ty::TInt), ("x", Ty::TBool)], RetTy::RetVoid, vec![ret(None)]);
    assert!(typecheck_fdecl(&mut h, &twice).is_err());
    let open = fun_decl("f", vec![], RetTy::RetVoid, vec![]);
    assert!(typecheck_fdecl(&mut TypeCtxt::empty(), &open).is_err());
    let unknown = fun_decl("f", vec![("x", Ty::TRef(RefTy::RStruct("s".to_string())))], RetTy::RetVoid, vec![ret(None)]);
    assert!(typecheck_fdecl(&mut TypeCtxt::empty(), &unknown).is_err());
    let unknown = fun_decl("f", vec![], RetTy::RetVal(Box::new(Ty::TRef(RefTy::RStruct("s".to_string())))), vec![ret(None)]);
    assert!(typecheck_fdecl(&mut TypeCtxt::empty(), &unknown).is_err());
}

#[test]
fn programs_are_checked() {
    let global = |name: &str, init: Node<Exp>| Decl::GVDecl(at(GDecl { name: name.to_string(), init }));
    let func = |f: FDecl| Decl::GFDecl(at(f));
    let structure = |name: &str, fields: Vec<(&str, Ty)>| {
        Decl::GTDecl(at(TDecl {
            td_id: name.to_string(),
            td_node: fields
                .into_iter()
                .map(|(n, t)| Field { field_name: n.to_string(), field_type: t })
                .collect(),
        }))
    };
    let f = || fun_decl("f", vec![], RetTy::RetVal(Box::new(Ty::TInt)), vec![ret(Some(var("g")))]);

    assert!(typecheck_prog(&vec![]).is_ok());
    // A function may use a global declared before it, and not one declared after it.
    assert!(typecheck_prog(&vec![global("g", num(1)), func(f())]).is_ok());
    assert!(typecheck_prog(&vec![func(f()), global("g", num(1))]).is_err());
    // A global may call a function declared after it.
    let late = vec![global("g", num(1)), global("h", call("f", vec![])), func(f())];
    assert!(typecheck_prog(&late).is_ok());
    // Names are declared once.
    assert!(typecheck_prog(&vec![global("g", num(1)), global("g", num(2))]).is_err());
    assert!(typecheck_prog(&vec![global("g", num(1)), func(f()), func(f())]).is_err());
    assert!(typecheck_prog(&vec![global("g", num(1)), func(f()), global("f", num(2))]).is_err());
    assert!(typecheck_prog(&vec![structure("s", vec![]), structure("s", vec![])]).is_err());
    // A struct may name a struct declared after it, and not one declared nowhere.
    let t = || Ty::TRef(RefTy::RStruct("t".to_string()));
    assert!(typecheck_prog(&vec![structure("s", vec![("a", t())]), structure("t", vec![])]).is_ok());
    assert!(typecheck_prog(&vec![structure("s", vec![("a", t())])]).is_err());
    // A global that does not type.
    assert!(typecheck_prog(&vec![global("g", var("x"))]).is_err());
}

#[test]
fn a_mismatch_says_what_was_asked_for_and_what_was_found() {
    let e = dclang::typechecker::exp::mismatch("wrong type", "int", "bool");
    assert_eq!(e.msg, "wrong type");
    assert_eq!((e.span.start, e.span.end), (0, 0));
    assert!(matches!(
        e.kind,
        TypeErrorKind::Mismatch { expected, found } if expected == "int" && found == "bool"
    ));
}

#[test]
fn a_copy_of_an_expression_is_the_same_expression() {
    let e = Exp::Call(
        Box::new(var("f")),
        vec![
            bop(BinOp::Add, num(1), var("x")),
            at(Exp::CArr(array_of(Ty::TInt), vec![at(Exp::CNull(RefTy::RString))])),
            at(Exp::Uop(UnOp::LogNot, Box::new(boolean(true)))),
            at(Exp::Index(Box::new(var("a")), Box::new(num(0)))),
            at(Exp::NewArr(Ty::TBool, Box::new(at(Exp::CStr("n".to_string()))))),
        ],
    );
    assert_eq!(e.clone(), e);
    let placed = Node { elt: Exp::CInt(3), loc: RangeTy { start: 4, end: 9 } };
    let outer = Exp::Uop(UnOp::Neg, Box::new(placed));
    assert_eq!(outer.clone(), outer);
}

#[test]
fn a_copy_of_a_statement_is_the_same_statement() {
    let step = at(Stmt::Assn(var("i"), bop(BinOp::Add, var("i"), num(1))));
    let counting = Stmt::For(
        vec![VDecl { vd_id: "i".to_string(), vd_node: num(0) }],
        Some(bop(BinOp::Lt, var("i"), num(10))),
        Some(Box::new(step)),
        vec![
            decl("j", var("i")),
            at(Stmt::If(boolean(true), vec![ret(None)], vec![ret(Some(num(1)))])),
            at(Stmt::While(boolean(false), vec![at(Stmt::SCall(var("p"), vec![num(2)]))])),
        ],
    );
    assert_eq!(format!("{:?}", counting.clone()), format!("{:?}", counting));
    let placed = Node { elt: Stmt::Ret(None), loc: RangeTy { start: 2, end: 5 } };
    let block = Stmt::While(boolean(true), vec![placed]);
    assert_eq!(format!("{:?}", block.clone()), format!("{:?}", block));
}
