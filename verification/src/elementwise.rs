//! Element-wise array kernels, computed by `ndarray`.

use vstd::prelude::*;

verus! {

/// `y` has the shape of `x`, and each `y[i]` is a value that `f` may return
/// for `x[i]`.
pub open spec fn mapped<T, F: Fn(&T) -> T>(f: F, x: Seq<T>, y: Seq<T>) -> bool {
    &&& y.len() == x.len()
    &&& forall|i: int| 0 <= i < x.len() ==> f.ensures((&x[i],), #[trigger] y[i])
}

/// `c` has the shape of `a` and `b`, and each `c[i]` is a value that `f` may
/// return for the pair `a[i]`, `b[i]`.
pub open spec fn zipped<T, F: Fn(&T, &T) -> T>(f: F, a: Seq<T>, b: Seq<T>, c: Seq<T>) -> bool {
    &&& a.len() == b.len()
    &&& c.len() == a.len()
    &&& forall|i: int| 0 <= i < a.len() ==> f.ensures((&a[i], &b[i]), #[trigger] c[i])
}

/// Applies `f` to every element of `x`.
///
/// Trusted: calls `ArrayBase::map` of `ndarray` on a one-dimensional view of
/// `x` and takes the result's buffer with `Array::into_raw_vec`. The contract
/// claims that the result has the length of `x` and that its `i`-th element is
/// what one call of `f` on `x[i]` returned. The view panics on a slice longer
/// than `isize::MAX`, which the precondition leaves out.
#[verifier::external_body]
pub(crate) fn map_elements<T, F: Fn(&T) -> T>(x: &Vec<T>, f: F) -> (y: Vec<T>)
    requires
        x.len() <= isize::MAX,
        forall|i: int| 0 <= i < x.len() ==> f.requires((&#[trigger] x[i],)),
    ensures
        mapped(f, x@, y@),
{
    ndarray::ArrayView1::from(x).map(f).into_raw_vec()
}

/// Combines `a` and `b` element by element with `f`.
///
/// Trusted: calls `Zip::map_collect` of `ndarray` on one-dimensional views of
/// `a` and `b` and takes the result's buffer with `Array::into_raw_vec`. The
/// contract claims that the result has the common length of `a` and `b` and
/// that its `i`-th element is what one call of `f` on `a[i]` and `b[i]`
/// returned. `Zip::and` panics when the two shapes differ and the views panic
/// on a slice longer than `isize::MAX`; the precondition leaves both out.
#[verifier::external_body]
pub(crate) fn zip_elements<T, F: Fn(&T, &T) -> T>(a: &Vec<T>, b: &Vec<T>, f: F) -> (c: Vec<T>)
    requires
        a.len() == b.len(),
        a.len() <= isize::MAX,
        forall|i: int| 0 <= i < a.len() ==> f.requires((&#[trigger] a[i], &b[i])),
    ensures
        zipped(f, a@, b@, c@),
{
    ndarray::Zip::from(ndarray::ArrayView1::from(a))
        .and(ndarray::ArrayView1::from(b))
        .map_collect(f)
        .into_raw_vec()
}

} // verus!
