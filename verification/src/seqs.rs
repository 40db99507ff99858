//! Sequences of values that have mathematical values of their own.

use vstd::prelude::*;

verus! {

/// The values of the items of `s`, in order.
pub open spec fn views<T: View>(s: Seq<T>) -> Seq<T::V> {
    Seq::new(s.len(), |i: int| s[i]@)
}

/// The values of an empty sequence are an empty sequence.
pub broadcast proof fn lemma_views_empty<T: View>()
    ensures
        #[trigger] views(Seq::<T>::empty()) == Seq::<T::V>::empty(),
{
    assert(views(Seq::<T>::empty()) =~= Seq::<T::V>::empty());
}

/// Taking values commutes with appending one item.
pub broadcast proof fn lemma_views_push<T: View>(s: Seq<T>, x: T)
    ensures
        #[trigger] views(s.push(x)) == views(s).push(x@),
{
    assert(views(s.push(x)) =~= views(s).push(x@));
}

/// Taking values commutes with concatenation.
pub broadcast proof fn lemma_views_add<T: View>(a: Seq<T>, b: Seq<T>)
    ensures
        #[trigger] views(a + b) == views(a) + views(b),
{
    assert(views(a + b) =~= views(a) + views(b));
}

/// Taking values commutes with taking a prefix.
pub broadcast proof fn lemma_views_take<T: View>(s: Seq<T>, n: int)
    requires
        0 <= n <= s.len(),
    ensures
        #[trigger] views(s.take(n)) == views(s).take(n),
{
    assert(views(s.take(n)) =~= views(s).take(n));
}

pub broadcast group group_views {
    lemma_views_empty,
    lemma_views_push,
    lemma_views_add,
    lemma_views_take,
}

} // verus!
