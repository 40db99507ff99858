//! Type checking: the context of declared names, and the error it reports.

use vstd::prelude::*;
use vstd::hash_map::StringHashMap;
use crate::ast::{Field, IdTy, RetTy, RetTyView, Ty, TyView};
use crate::common::{Span, TypeError, TypeErrorKind};

pub mod subtype;
pub mod exp;
pub mod stmt;
pub mod prog;

verus! {

/// The type of a function as the context keeps it.
pub type FunTy = Vec<(Ty, RetTy)>;

/// The result of a check.
pub type TcResult<T> = Result<T, TypeError>;

/// The names and types of the fields `fs`, in order.
pub open spec fn fields_view(fs: Seq<Field>) -> Seq<(Seq<char>, TyView)> {
    Seq::new(fs.len(), |i: int| (fs[i].field_name@, fs[i].field_type@))
}

/// The value of a function type of the context.
pub open spec fn fun_view(f: Seq<(Ty, RetTy)>) -> Seq<(TyView, RetTyView)> {
    Seq::new(f.len(), |i: int| (f[i].0@, f[i].1@))
}

/// The types by name that `m` holds.
pub open spec fn tys_by_name(m: Map<Seq<char>, Ty>) -> Map<Seq<char>, TyView> {
    Map::new(|k: Seq<char>| m.contains_key(k), |k: Seq<char>| m[k]@)
}

/// The scopes `s`, outermost first, each as the types by name that it
/// holds.
pub open spec fn scopes_view(s: Seq<StringHashMap<Ty>>) -> Seq<Map<Seq<char>, TyView>> {
    Seq::new(s.len(), |i: int| tys_by_name(s[i]@))
}

/// The value of a [`TypeCtxt`].
pub struct TypeCtxtView {
    /// The scopes of local variables, outermost first.
    pub locals: Seq<Map<Seq<char>, TyView>>,
    /// The global variables.
    pub globals: Map<Seq<char>, TyView>,
    /// The functions.
    pub functions: Map<Seq<char>, Seq<(TyView, RetTyView)>>,
    /// The struct types, each with its fields in order.
    pub structs: Map<Seq<char>, Seq<(Seq<char>, TyView)>>,
}

/// The type of the local variable `id`: that of the innermost scope that
/// declares it.
pub open spec fn lookup_local(locals: Seq<Map<Seq<char>, TyView>>, id: Seq<char>) -> Option<
    TyView,
>
    decreases locals.len(),
{
    if locals.len() == 0 {
        None
    } else if locals.last().contains_key(id) {
        Some(locals.last()[id])
    } else {
        lookup_local(locals.drop_last(), id)
    }
}

/// The type of the variable `id`: a local variable hides a global one.
pub open spec fn lookup_var(cx: TypeCtxtView, id: Seq<char>) -> Option<TyView> {
    match lookup_local(cx.locals, id) {
        Some(t) => Some(t),
        None => if cx.globals.contains_key(id) {
            Some(cx.globals[id])
        } else {
            None
        },
    }
}

/// The type of the first field named `f` among `fields`.
pub open spec fn lookup_field(fields: Seq<(Seq<char>, TyView)>, f: Seq<char>) -> Option<TyView>
    decreases fields.len(),
{
    if fields.len() == 0 {
        None
    } else if fields[0].0 == f {
        Some(fields[0].1)
    } else {
        lookup_field(fields.drop_first(), f)
    }
}

/// The names that are declared at a point of a program, with their types:
/// local variables in nested scopes, global variables, functions and struct
/// types. A context is made with one scope, and closing a scope never
/// leaves it without one.
pub struct TypeCtxt {
    locals: Vec<StringHashMap<Ty>>,
    globals: StringHashMap<Ty>,
    functions: StringHashMap<FunTy>,
    structs: StringHashMap<Vec<Field>>,
}

impl View for TypeCtxt {
    type V = TypeCtxtView;

    closed spec fn view(&self) -> TypeCtxtView {
        TypeCtxtView {
            locals: scopes_view(self.locals@),
            globals: tys_by_name(self.globals@),
            functions: Map::new(
                |k: Seq<char>| self.functions@.contains_key(k),
                |k: Seq<char>| fun_view(self.functions@[k]@),
            ),
            structs: Map::new(
                |k: Seq<char>| self.structs@.contains_key(k),
                |k: Seq<char>| fields_view(self.structs@[k]@),
            ),
        }
    }
}

impl TypeCtxt {
    /// The context that declares nothing: one empty scope.
    pub fn empty() -> (r: Self)
        ensures
            r@.locals == seq![Map::<Seq<char>, TyView>::empty()],
            r@.globals == Map::<Seq<char>, TyView>::empty(),
            r@.functions == Map::<Seq<char>, Seq<(TyView, RetTyView)>>::empty(),
            r@.structs == Map::<Seq<char>, Seq<(Seq<char>, TyView)>>::empty(),
    {
        let mut locals: Vec<StringHashMap<Ty>> = Vec::new();
        locals.push(StringHashMap::new());
        let r = Self {
            locals,
            globals: StringHashMap::new(),
            functions: StringHashMap::new(),
            structs: StringHashMap::new(),
        };
        assert(r@.locals =~= seq![Map::<Seq<char>, TyView>::empty()]) by {
            assert(tys_by_name(r.locals@[0]@) =~= Map::<Seq<char>, TyView>::empty());
        }
        assert(r@.globals =~= Map::<Seq<char>, TyView>::empty());
        assert(r@.functions =~= Map::<Seq<char>, Seq<(TyView, RetTyView)>>::empty());
        assert(r@.structs =~= Map::<Seq<char>, Seq<(Seq<char>, TyView)>>::empty());
        r
    }

    /// Opens a new innermost scope, which declares nothing yet.
    pub fn push_scope(&mut self)
        ensures
            final(self)@.locals == old(self)@.locals.push(Map::<Seq<char>, TyView>::empty()),
            final(self)@.globals == old(self)@.globals,
            final(self)@.functions == old(self)@.functions,
            final(self)@.structs == old(self)@.structs,
    {
        self.locals.push(StringHashMap::new());
        assert(self@.locals =~= old(self)@.locals.push(Map::<Seq<char>, TyView>::empty())) by {
            assert(tys_by_name(self.locals@[self.locals@.len() - 1]@) =~= Map::<
                Seq<char>,
                TyView,
            >::empty());
        }
    }

    /// Closes the innermost scope. Where it is the only one, an empty scope
    /// takes its place.
    pub fn pop_scope(&mut self)
        ensures
            final(self)@.locals == if old(self)@.locals.len() > 1 {
                old(self)@.locals.drop_last()
            } else {
                seq![Map::<Seq<char>, TyView>::empty()]
            },
            final(self)@.globals == old(self)@.globals,
            final(self)@.functions == old(self)@.functions,
            final(self)@.structs == old(self)@.structs,
    {
        self.locals.pop();
        if self.locals.is_empty() {
            self.locals.push(StringHashMap::new());
            assert(self@.locals =~= seq![Map::<Seq<char>, TyView>::empty()]) by {
                assert(tys_by_name(self.locals@[0]@) =~= Map::<Seq<char>, TyView>::empty());
            }
        } else {
            assert(self@.locals =~= old(self)@.locals.drop_last());
        }
    }

    /// Declares the local variable `id` of type `ty` in the innermost scope.
    /// An earlier declaration of `id` in that scope is replaced.
    pub fn add_local(&mut self, id: IdTy, ty: Ty)
        requires
            old(self)@.locals.len() > 0,
        ensures
            final(self)@.locals == old(self)@.locals.update(
                old(self)@.locals.len() - 1,
                old(self)@.locals.last().insert(id@, ty@),
            ),
            final(self)@.globals == old(self)@.globals,
            final(self)@.functions == old(self)@.functions,
            final(self)@.structs == old(self)@.structs,
    {
        let n = self.locals.len();
        self.locals[n - 1].insert(id, ty);
        assert(self@.locals =~= old(self)@.locals.update(
            old(self)@.locals.len() - 1,
            old(self)@.locals.last().insert(id@, ty@),
        )) by {
            assert(tys_by_name(self.locals@[n - 1]@) =~= tys_by_name(
                old(self).locals@[n - 1]@,
            ).insert(id@, ty@));
        }
    }

    /// Whether the innermost scope declares the local variable `id`.
    pub fn declares_local(&self, id: &str) -> (r: bool)
        requires
            self@.locals.len() > 0,
        ensures
            r == self@.locals.last().contains_key(id@),
    {
        let n = self.locals.len();
        self.locals[n - 1].contains_key(id)
    }

    /// The type of the local variable `id`.
    pub fn lookup_local_option(&self, id: &str) -> (r: Option<&Ty>)
        ensures
            match r {
                Some(t) => lookup_local(self@.locals, id@) == Some(t@),
                None => lookup_local(self@.locals, id@) is None,
            },
    {
        let mut k: usize = self.locals.len();
        assert(self@.locals.take(k as int) == self@.locals);
        while k > 0
            invariant
                k <= self.locals.len(),
                lookup_local(self@.locals, id@) == lookup_local(self@.locals.take(k as int), id@),
            decreases k,
        {
            k -= 1;
            assert(self@.locals.take(k as int + 1).drop_last() == self@.locals.take(k as int));
            assert(self@.locals.take(k as int + 1).last() == tys_by_name(self.locals@[k as int]@));
            if let Some(t) = self.locals[k].get(id) {
                return Some(t);
            }
        }
        None
    }

    /// Declares the global variable `id` of type `ty`; an earlier
    /// declaration of `id` is replaced.
    pub fn add_global(&mut self, id: IdTy, ty: Ty)
        ensures
            final(self)@.locals == old(self)@.locals,
            final(self)@.globals == old(self)@.globals.insert(id@, ty@),
            final(self)@.functions == old(self)@.functions,
            final(self)@.structs == old(self)@.structs,
    {
        self.globals.insert(id, ty);
        assert(self@.globals =~= old(self)@.globals.insert(id@, ty@));
    }

    /// The type of the global variable `id`.
    pub fn lookup_global_option(&self, id: &str) -> (r: Option<&Ty>)
        ensures
            match r {
                Some(t) => self@.globals.contains_key(id@) && self@.globals[id@] == t@,
                None => !self@.globals.contains_key(id@),
            },
    {
        self.globals.get(id)
    }

    /// The type of the variable `id`: a local variable hides a global one.
    pub fn lookup_var_option(&self, id: &str) -> (r: Option<&Ty>)
        ensures
            match r {
                Some(t) => lookup_var(self@, id@) == Some(t@),
                None => lookup_var(self@, id@) is None,
            },
    {
        match self.lookup_local_option(id) {
            Some(t) => Some(t),
            None => self.lookup_global_option(id),
        }
    }

    /// Declares the function `id` of type `fty`; an earlier declaration of
    /// `id` is replaced.
    pub fn add_function(&mut self, id: IdTy, fty: FunTy)
        ensures
            final(self)@.locals == old(self)@.locals,
            final(self)@.globals == old(self)@.globals,
            final(self)@.functions == old(self)@.functions.insert(id@, fun_view(fty@)),
            final(self)@.structs == old(self)@.structs,
    {
        self.functions.insert(id, fty);
        assert(self@.functions =~= old(self)@.functions.insert(id@, fun_view(fty@)));
    }

    /// The type of the function `id`.
    pub fn lookup_function_option(&self, id: &str) -> (r: Option<&FunTy>)
        ensures
            match r {
                Some(f) => self@.functions.contains_key(id@) && self@.functions[id@] == fun_view(
                    f@,
                ),
                None => !self@.functions.contains_key(id@),
            },
    {
        self.functions.get(id)
    }

    /// Declares the struct type `id` with the fields `fields`; an earlier
    /// declaration of `id` is replaced.
    pub fn add_struct(&mut self, id: IdTy, fields: Vec<Field>)
        ensures
            final(self)@.locals == old(self)@.locals,
            final(self)@.globals == old(self)@.globals,
            final(self)@.functions == old(self)@.functions,
            final(self)@.structs == old(self)@.structs.insert(id@, fields_view(fields@)),
    {
        self.structs.insert(id, fields);
        assert(self@.structs =~= old(self)@.structs.insert(id@, fields_view(fields@)));
    }

    /// The fields of the struct type `id`.
    pub fn lookup_struct_option(&self, id: &str) -> (r: Option<&[Field]>)
        ensures
            match r {
                Some(fs) => self@.structs.contains_key(id@) && self@.structs[id@] == fields_view(
                    fs@,
                ),
                None => !self@.structs.contains_key(id@),
            },
    {
        match self.structs.get(id) {
            Some(v) => Some(v.as_slice()),
            None => None,
        }
    }

    /// The type of the field `f_name` of the struct type `st_name`.
    pub fn lookup_field_option(&self, st_name: &str, f_name: &str) -> (r: Option<&Ty>)
        ensures
            match r {
                Some(t) => self@.structs.contains_key(st_name@) && lookup_field(
                    self@.structs[st_name@],
                    f_name@,
                ) == Some(t@),
                None => !self@.structs.contains_key(st_name@) || lookup_field(
                    self@.structs[st_name@],
                    f_name@,
                ) is None,
            },
    {
        let fields = match self.lookup_struct_option(st_name) {
            Some(fs) => fs,
            None => {
                return None;
            },
        };
        let ghost all = fields_view(fields@);
        let name: String = f_name.to_owned();
        let mut i: usize = 0;
        assert(all.skip(0) == all);
        while i < fields.len()
            invariant
                i <= fields.len(),
                all == fields_view(fields@),
                self@.structs.contains_key(st_name@),
                self@.structs[st_name@] == all,
                name@ == f_name@,
                lookup_field(all, f_name@) == lookup_field(all.skip(i as int), f_name@),
            decreases fields.len() - i,
        {
            assert(all.skip(i as int).drop_first() == all.skip(i as int + 1));
            assert(all.skip(i as int)[0] == all[i as int]);
            assert(all[i as int] == (fields@[i as int].field_name@, fields@[i as int].field_type@));
            if fields[i].field_name == name {
                return Some(&fields[i].field_type);
            }
            i += 1;
        }
        None
    }
}

/// The type error with the message `msg` at `span` of the kind `kind`.
pub fn type_error(msg: String, span: Span, kind: TypeErrorKind) -> (r: TypeError)
    ensures
        r.msg == msg,
        r.span == span,
        r.kind == kind,
{
    TypeError { msg, span, kind }
}

} // verus!
