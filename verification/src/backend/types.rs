//! Named types, the size of a type in memory, and the two small integer
//! functions that scaling an index needs.

use vstd::prelude::*;
use vstd::hash_map::StringHashMap;
use vstd::arithmetic::logarithm::log;
use crate::llvm::{Tid, Ty};

verus! {

/// What a list of type declarations says of each name: a later declaration
/// of a name replaces an earlier one.
pub open spec fn type_map(decls: Seq<(Tid, Ty)>) -> Map<Seq<char>, Ty>
    decreases decls.len(),
{
    if decls.len() == 0 {
        Map::empty()
    } else {
        type_map(decls.drop_last()).insert(decls.last().0@, decls.last().1)
    }
}

/// The rank of a type under a ranking of the type names: one more than the
/// rank of the highest ranked name that the type holds by value, and 0 where
/// it holds none. What stands behind a pointer or in a function type is not
/// held by value.
pub open spec fn ty_rank(rank: Map<Seq<char>, nat>, t: Ty) -> nat
    decreases t,
{
    match t {
        Ty::Namedt(n) => if rank.contains_key(n@) {
            rank[n@] + 1
        } else {
            0
        },
        Ty::Array(_, e) => ty_rank(rank, *e),
        Ty::Struct(ts) => tys_rank(rank, ts@),
        _ => 0,
    }
}

/// The highest rank among `ts`.
pub open spec fn tys_rank(rank: Map<Seq<char>, nat>, ts: Seq<Ty>) -> nat
    decreases ts,
{
    if ts.len() == 0 {
        0
    } else {
        let r = tys_rank(rank, ts.drop_last());
        let l = ty_rank(rank, ts.last());
        if r < l {
            l
        } else {
            r
        }
    }
}

/// `rank` orders the declared names so that each stands above every name
/// that its definition holds by value.
pub open spec fn ranks_types(td: Map<Seq<char>, Ty>, rank: Map<Seq<char>, nat>) -> bool {
    forall|n: Seq<char>| #[trigger]
        td.contains_key(n) ==> rank.contains_key(n) && ty_rank(rank, td[n]) <= rank[n]
}

/// No declared type holds itself by value, directly or through other names.
pub open spec fn acyclic(td: Map<Seq<char>, Ty>) -> bool {
    exists|rank: Map<Seq<char>, nat>| ranks_types(td, rank)
}

/// Some ranking of the names of an acyclic table.
pub open spec fn ranking(td: Map<Seq<char>, Ty>) -> Map<Seq<char>, nat> {
    choose|rank: Map<Seq<char>, nat>| ranks_types(td, rank)
}

/// The size of a type in bytes. Fields are packed. A name that is not
/// declared has size 0, and so has every name of a table that is not acyclic.
pub open spec fn ty_size(td: Map<Seq<char>, Ty>, t: Ty) -> nat
    decreases ty_rank(ranking(td), t), t,
{
    match t {
        Ty::Void | Ty::I8 | Ty::Fun(_, _) => 0,
        Ty::Ptr(_) | Ty::I1 | Ty::I64 => 8,
        Ty::Array(n, e) => n as nat * ty_size(td, *e),
        Ty::Struct(ts) => tys_size(td, ts@),
        Ty::Namedt(n) => if acyclic(td) && td.contains_key(n@) {
            ty_size(td, td[n@])
        } else {
            0
        },
    }
}

/// The sum of the sizes of `ts`.
pub open spec fn tys_size(td: Map<Seq<char>, Ty>, ts: Seq<Ty>) -> nat
    decreases tys_rank(ranking(td), ts), ts,
{
    if ts.len() == 0 {
        0
    } else {
        tys_size(td, ts.drop_last()) + ty_size(td, ts.last())
    }
}

/// Computing the size of `t` stays within `usize` at every step.
pub open spec fn size_fits(td: Map<Seq<char>, Ty>, t: Ty) -> bool
    decreases ty_rank(ranking(td), t), t,
{
    match t {
        Ty::Array(n, e) => size_fits(td, *e) && n as nat * ty_size(td, *e) <= usize::MAX,
        Ty::Struct(ts) => sizes_fit(td, ts@),
        Ty::Namedt(n) => acyclic(td) && td.contains_key(n@) ==> size_fits(td, td[n@]),
        _ => true,
    }
}

/// Computing the sizes of `ts` and their sum stays within `usize`.
pub open spec fn sizes_fit(td: Map<Seq<char>, Ty>, ts: Seq<Ty>) -> bool
    decreases tys_rank(ranking(td), ts), ts,
{
    if ts.len() == 0 {
        true
    } else {
        &&& sizes_fit(td, ts.drop_last())
        &&& size_fits(td, ts.last())
        &&& tys_size(td, ts) <= usize::MAX
    }
}

/// The type that `t` stands for: a declared name is replaced by its
/// definition until the type is no name. A name that is not declared stays,
/// and so does every name of a table that is not acyclic.
pub open spec fn resolved(td: Map<Seq<char>, Ty>, t: Ty) -> Ty
    decreases ty_rank(ranking(td), t),
{
    match t {
        Ty::Namedt(n) => if acyclic(td) && td.contains_key(n@) {
            resolved(td, td[n@])
        } else {
            t
        },
        _ => t,
    }
}

/// For each declared name `index` gives a place in `decls` where the
/// definition in force stands.
pub open spec fn indexes(index: Map<Seq<char>, usize>, decls: Seq<(Tid, Ty)>) -> bool {
    &&& forall|n: Seq<char>| index.contains_key(n) <==> type_map(decls).contains_key(n)
    &&& forall|n: Seq<char>| #[trigger]
        index.contains_key(n) ==> index[n] < decls.len() && decls[index[n] as int].1 == type_map(
            decls,
        )[n]
}

/// The type declarations of a program, ready for lookup by name.
pub struct TypeTable<'a> {
    decls: &'a [(Tid, Ty)],
    index: StringHashMap<usize>,
}

impl<'a> View for TypeTable<'a> {
    type V = Map<Seq<char>, Ty>;

    closed spec fn view(&self) -> Map<Seq<char>, Ty> {
        type_map(self.decls@)
    }
}

impl<'a> TypeTable<'a> {
    #[verifier::type_invariant]
    spec fn inv(&self) -> bool {
        indexes(self.index@, self.decls@)
    }

    /// The table of the declarations `decls`.
    pub fn new(decls: &'a [(Tid, Ty)]) -> (r: Self)
        ensures
            r@ == type_map(decls@),
    {
        let mut index: StringHashMap<usize> = StringHashMap::new();
        let mut i: usize = 0;
        while i < decls.len()
            invariant
                i <= decls.len(),
                indexes(index@, decls@.take(i as int)),
            decreases decls.len() - i,
        {
            assert(decls@.take(i as int + 1).drop_last() == decls@.take(i as int));
            index.insert(decls[i].0.clone(), i);
            i += 1;
        }
        assert(decls@.take(i as int) == decls@);
        TypeTable { decls, index }
    }

    /// The definition of the name `name`, if it is declared.
    pub fn get(&self, name: &str) -> (r: Option<&'a Ty>)
        ensures
            r == if self@.contains_key(name@) {
                Some(&self@[name@])
            } else {
                None
            },
    {
        proof {
            use_type_invariant(self);
        }
        match self.index.get(name) {
            Some(i) => Some(&self.decls[*i].1),
            None => None,
        }
    }
}

/// The size of `t` in bytes.
pub fn size_ty(tdecls: &TypeTable, t: &Ty) -> (r: usize)
    requires
        acyclic(tdecls@),
        size_fits(tdecls@, *t),
    ensures
        r == ty_size(tdecls@, *t),
    decreases ty_rank(ranking(tdecls@), *t), t,
{
    match t {
        Ty::Void | Ty::I8 | Ty::Fun(_, _) => 0,
        Ty::Ptr(_) | Ty::I1 | Ty::I64 => 8,
        Ty::Array(n, inner) => {
            let s: usize = size_ty(tdecls, inner);
            *n * s
        },
        Ty::Struct(tys) => {
            let mut sum: usize = 0;
            let mut i: usize = 0;
            while i < tys.len()
                invariant
                    i <= tys.len(),
                    acyclic(tdecls@),
                    sizes_fit(tdecls@, tys@),
                    *t == Ty::Struct(*tys),
                    sum == tys_size(tdecls@, tys@.take(i as int)),
                decreases tys.len() - i,
            {
                proof {
                    lemma_sizes_fit_prefix(tdecls@, tys@, i as int + 1);
                    assert(tys@.take(i as int + 1).drop_last() == tys@.take(i as int));
                    lemma_tys_rank_bounds(ranking(tdecls@), tys@, i as int);
                }
                let s: usize = size_ty(tdecls, &tys[i]);
                sum = sum + s;
                i += 1;
            }
            assert(tys@.take(i as int) == tys@);
            sum
        },
        Ty::Namedt(tid) => {
            match tdecls.get(tid.as_str()) {
                Some(resolved) => size_ty(tdecls, resolved),
                None => 0,
            }
        },
    }
}

/// A prefix of types whose sizes fit has sizes that fit, and each of its
/// types fits.
pub proof fn lemma_sizes_fit_prefix(td: Map<Seq<char>, Ty>, ts: Seq<Ty>, n: int)
    requires
        sizes_fit(td, ts),
        0 <= n <= ts.len(),
    ensures
        sizes_fit(td, ts.take(n)),
        n > 0 ==> size_fits(td, ts[n - 1]),
    decreases ts.len(),
{
    if n == ts.len() {
        assert(ts.take(n) == ts);
    } else {
        lemma_sizes_fit_prefix(td, ts.drop_last(), n);
        assert(ts.drop_last().take(n) == ts.take(n));
    }
}

/// No type of `ts` ranks above `ts`.
pub proof fn lemma_tys_rank_bounds(rank: Map<Seq<char>, nat>, ts: Seq<Ty>, i: int)
    requires
        0 <= i < ts.len(),
    ensures
        ty_rank(rank, ts[i]) <= tys_rank(rank, ts),
    decreases ts.len(),
{
    if i < ts.len() - 1 {
        lemma_tys_rank_bounds(rank, ts.drop_last(), i);
    }
}

/// The type that `t` stands for.
pub fn resolve_ty<'a>(tdecls: &TypeTable<'a>, t: &'a Ty) -> (r: &'a Ty)
    requires
        acyclic(tdecls@),
    ensures
        *r == resolved(tdecls@, *t),
    decreases ty_rank(ranking(tdecls@), *t),
{
    match t {
        Ty::Namedt(tid) => {
            match tdecls.get(tid.as_str()) {
                Some(resolved) => resolve_ty(tdecls, resolved),
                None => t,
            }
        },
        _ => t,
    }
}

/// Clearing the lowest set bit of `n` leaves nothing exactly when `n` is a
/// power of two.
proof fn lemma_one_bit(n: u64)
    requires
        n > 0,
    ensures
        (n & ((n - 1) as u64)) == 0 <==> vstd::arithmetic::power2::is_pow2(n as int),
    decreases n,
{
    reveal(vstd::arithmetic::power2::is_pow2);
    if n > 1 {
        let h: u64 = n / 2;
        assert(n > 1 ==> (((n & ((n - 1) as u64)) == 0) <==> (n % 2 == 0 && ((n / 2) & ((n / 2
            - 1) as u64)) == 0))) by (bit_vector);
        lemma_one_bit(h);
    } else {
        assert(n == 1 ==> (n & ((n - 1) as u64)) == 0) by (bit_vector);
    }
}

/// Whether `n` is a power of two.
pub fn is_pow2(n: usize) -> (r: bool)
    ensures
        r == vstd::arithmetic::power2::is_pow2(n as int),
{
    let m: u64 = n as u64;
    if m > 0 {
        proof {
            lemma_one_bit(m);
        }
        (m & (m - 1)) == 0
    } else {
        proof {
            reveal(vstd::arithmetic::power2::is_pow2);
        }
        false
    }
}

/// The logarithm of `n` to the base 2, rounded down; 0 for `n` = 0.
pub fn log2(n: usize) -> (r: usize)
    ensures
        r == log(2, n as int),
{
    let mut m: u64 = n as u64;
    let mut result: usize = 0;
    while m > 1
        invariant
            result + log(2, m as int) == log(2, n as int),
            result + m <= n,
        decreases m,
    {
        proof {
            reveal(log);
            assert(m >> 1 == m / 2) by (bit_vector);
        }
        m = m >> 1;
        result += 1;
    }
    proof {
        reveal(log);
    }
    result
}

} // verus!
