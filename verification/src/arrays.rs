//! Arrays of `ndarray` that hold indices and counts.
//!
//! The verifier cannot take the array types of `ndarray`, so each array sits
//! in a struct of which the verifier sees the name only. What an array holds
//! is named by `count_items` and `index_rows`, and the two constructors that
//! the library calls are wrapped here. The contracts of the wrappers are
//! believed, not proved: each says what the constructor's source shows.

use ndarray::{Array1, Array2, ShapeError};
use vstd::prelude::*;

verus! {

/// A one-dimensional array of counts: an `ndarray::Array1`, of which the
/// verifier sees nothing.
#[verifier::external_body]
#[derive(Debug)]
pub struct CountArray {
    pub array: Array1<usize>,
}

/// A two-dimensional array of indices: an `ndarray::Array2`, of which the
/// verifier sees nothing.
#[verifier::external_body]
#[derive(Debug)]
pub struct IndexArray {
    pub array: Array2<usize>,
}

/// `ndarray::ShapeError`, of which the verifier sees the name only.
#[verifier::external_type_specification]
#[verifier::external_body]
pub struct ExShapeError(ShapeError);

/// The items of an array of counts, in order.
pub uninterp spec fn count_items(a: CountArray) -> Seq<usize>;

/// The rows of an array of indices, in order.
pub uninterp spec fn index_rows(a: IndexArray) -> Seq<Seq<usize>>;

/// The product of the two axis lengths, a length of zero counting as one.
pub open spec fn nonzero_size(rows: usize, cols: usize) -> int {
    (if rows == 0 {
        1int
    } else {
        rows as int
    }) * (if cols == 0 {
        1int
    } else {
        cols as int
    })
}

/// The data cut into `rows` rows of `cols` items each.
pub open spec fn rows_of(data: Seq<usize>, rows: usize, cols: usize) -> Seq<Seq<usize>> {
    Seq::new(rows as nat, |i: int| Seq::new(cols as nat, |j: int| data[i * cols + j]))
}

/// `Array1::from` on a vector: the array holds the items of the vector.
#[verifier::external_body]
pub(crate) fn count_array_from_vec(data: Vec<usize>) -> (a: CountArray)
    ensures
        count_items(a) == data@,
{
    CountArray { array: Array1::from(data) }
}

/// `Array2::from_shape_vec` with a shape of `rows` by `cols` in the default
/// order: it succeeds exactly when the shape has as many items as the vector
/// and the product of its axis lengths that are not zero is at most
/// `isize::MAX`; the array then holds the vector row after row.
#[verifier::external_body]
pub(crate) fn index_array_from_shape_vec(rows: usize, cols: usize, data: Vec<usize>) -> (r: Result<
    IndexArray,
    ShapeError,
>)
    ensures
        r is Ok <==> (nonzero_size(rows, cols) <= isize::MAX && rows * cols == data@.len()),
        r matches Ok(a) ==> index_rows(a) == rows_of(data@, rows, cols),
{
    Array2::from_shape_vec((rows, cols), data).map(|array| IndexArray { array })
}

} // verus!
