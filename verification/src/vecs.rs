//! Vectors whose elements are known by their models.

use crate::lisp::LispVal;
use vstd::prelude::*;

verus! {

/// An empty vector.
pub fn empty_vec<T: DeepView>() -> (v: Vec<T>)
    ensures
        v@.len() == 0,
        v.deep_view() == Seq::<T::V>::empty(),
{
    let v: Vec<T> = Vec::new();
    assert(v.deep_view() =~= Seq::<T::V>::empty());
    v
}

/// Appends one element.
pub fn push_to<T: DeepView>(v: &mut Vec<T>, x: T)
    ensures
        final(v)@ == old(v)@.push(x),
        final(v).deep_view() == old(v).deep_view().push(x.deep_view()),
{
    let ghost before = v.deep_view();
    v.push(x);
    assert(v.deep_view() =~= before.push(x.deep_view()));
}

/// A vector with one element.
pub fn vec_of<T: DeepView>(x: T) -> (v: Vec<T>)
    ensures
        v@ == seq![x],
        v.deep_view() == seq![x.deep_view()],
{
    let mut v: Vec<T> = Vec::new();
    v.push(x);
    assert(v@ =~= seq![x]);
    assert(v.deep_view() =~= seq![x.deep_view()]);
    v
}

/// Appends the elements of another vector.
pub fn append_to<T: DeepView>(v: &mut Vec<T>, xs: Vec<T>)
    ensures
        final(v)@ == old(v)@ + xs@,
        final(v).deep_view() == old(v).deep_view() + xs.deep_view(),
{
    let ghost before = v.deep_view();
    let mut xs = xs;
    let ghost added = xs.deep_view();
    v.append(&mut xs);
    assert(v.deep_view() =~= before + added);
}

/// Clones the values from `from` to `to`.
pub fn clone_range(es: &Vec<LispVal>, from: usize, to: usize) -> (r: Vec<LispVal>)
    requires
        from <= to <= es@.len(),
    ensures
        r.deep_view() == es.deep_view().subrange(from as int, to as int),
{
    let mut v: Vec<LispVal> = Vec::new();
    let mut i: usize = from;
    while i < to
        invariant
            from <= i <= to <= es@.len(),
            v@ == es@.subrange(from as int, i as int),
        decreases to - i,
    {
        v.push(es[i].clone());
        i = i + 1;
        assert(v@ =~= es@.subrange(from as int, i as int));
    }
    assert(v.deep_view() =~= es.deep_view().subrange(from as int, to as int));
    v
}

} // verus!
