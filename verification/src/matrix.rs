//! The dense row-major matrix of Plonky3, in which the trace is handed on.

use p3_matrix::dense::DenseMatrix;
use p3_matrix::dense::RowMajorMatrix;
use vstd::prelude::*;

verus! {

/// Makes `p3_matrix::dense::DenseMatrix` known to the verifier as an opaque
/// type: nothing is read from its fields, and what it holds is spoken of
/// through `matrix_values` and `matrix_width` alone.
#[verifier::external_type_specification]
#[verifier::external_body]
#[verifier::reject_recursive_types(T)]
#[verifier::reject_recursive_types(V)]
pub struct ExDenseMatrix<T, V>(DenseMatrix<T, V>);

/// The values that the matrix holds, row after row.
pub uninterp spec fn matrix_values(m: RowMajorMatrix<u32>) -> Seq<u32>;

/// The width the matrix was made with: the number of values in a row.
pub uninterp spec fn matrix_width(m: RowMajorMatrix<u32>) -> nat;

/// Calls `RowMajorMatrix::new`. Trusted: the matrix holds the values it is
/// given, in their order, and the width it is given. The constructor expects
/// the values to fill whole rows.
#[verifier::external_body]
pub(crate) fn new_matrix(values: Vec<u32>, width: usize) -> (m: RowMajorMatrix<u32>)
    requires
        width == 0 || values.len() % width == 0,
    ensures
        matrix_values(m) == values@,
        matrix_width(m) == width,
{
    RowMajorMatrix::new(values, width)
}

} // verus!
