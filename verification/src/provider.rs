//! The numeric values of the linear-algebra provider, and the calls into it.
//!
//! Numbers never appear in this library as anything but whole provider
//! values: a dense matrix or a sparse tensor.  A scalar is carried as the
//! single cell of a matrix with one row and one column.
//!
//! The calls are not proved: each function states what the provider's
//! function is taken to do, over names that stand for the provider's
//! results.  A call that reads cells asks for operands that are sound
//! (`matrix_sound`, `tensor_sound`): values that the provider's own
//! constructor accepts, so that no index of a stored cell lies outside the
//! shape.  Each call states that its result is sound again: the provider
//! makes a result through its constructors, or changes the stored cells of
//! a sound operand one by one.  A value that comes from outside is sound
//! once `checked` has rebuilt it.

use opensrdk_linear_algebra::sparse::operations::kronecker_delta::KroneckerDelta;
use opensrdk_linear_algebra::sparse::SparseTensor;
use opensrdk_linear_algebra::DiagonalMatrix;
use opensrdk_linear_algebra::Matrix;
use opensrdk_linear_algebra::Number;
use opensrdk_linear_algebra::Tensor;
use vstd::prelude::*;

verus! {

/// A dense matrix of the provider (`opensrdk_linear_algebra::Matrix`).
///
/// The field is open so that a matrix can be put in and read: the provider's
/// type cannot stand in a signature here.  Nothing is computed on such a
/// value as it stands: the library works on a `NumericMatrix`, which is made
/// of one through [`MatrixValue::checked`] alone.
#[verifier::external_body]
#[derive(Debug, PartialEq)]
pub struct MatrixValue {
    pub cells: Matrix,
}

/// A sparse tensor of the provider
/// (`opensrdk_linear_algebra::sparse::SparseTensor`).
///
/// The field is open so that a tensor can be put in and read.  Nothing is
/// computed on such a value as it stands: the library works on a
/// `NumericTensor`, which is made of one through [`TensorValue::checked`]
/// alone.
#[verifier::external_body]
#[derive(Debug, PartialEq)]
pub struct TensorValue {
    pub cells: SparseTensor,
}

/// What `Matrix::from` makes of the rows and the cells of a matrix; `None`
/// stands for its error.
pub uninterp spec fn matrix_rebuilt(m: MatrixValue) -> Option<MatrixValue>;

/// What `SparseTensor::from` makes of the sizes and the cells of a tensor;
/// `None` stands for its error.
pub uninterp spec fn tensor_rebuilt(t: TensorValue) -> Option<TensorValue>;

/// The number of rows of a matrix.
pub uninterp spec fn matrix_rows(m: MatrixValue) -> usize;

/// The number of columns of a matrix.
pub uninterp spec fn matrix_cols(m: MatrixValue) -> usize;

/// What `Matrix::new` returns: the matrix of that shape whose cells are all
/// zero.
pub uninterp spec fn zero_matrix(rows: usize, cols: usize) -> MatrixValue;

/// What `DiagonalMatrix::identity(n).mat()` returns: the identity matrix.
pub uninterp spec fn unit_matrix(n: usize) -> MatrixValue;

/// What `==` on two matrices returns.
pub uninterp spec fn matrix_equal(a: MatrixValue, b: MatrixValue) -> bool;

/// What `Matrix + &Matrix` returns.
pub uninterp spec fn matrix_sum(a: MatrixValue, b: MatrixValue) -> MatrixValue;

/// What `Matrix - &Matrix` returns.
pub uninterp spec fn matrix_difference(a: MatrixValue, b: MatrixValue) -> MatrixValue;

/// What `Matrix * &Matrix` returns (the product cell by cell).
pub uninterp spec fn matrix_product(a: MatrixValue, b: MatrixValue) -> MatrixValue;

/// What `Matrix / &Matrix` returns (the quotient cell by cell).
pub uninterp spec fn matrix_quotient(a: MatrixValue, b: MatrixValue) -> MatrixValue;

/// What `-Matrix` returns.
pub uninterp spec fn matrix_negation(a: MatrixValue) -> MatrixValue;

/// What `Matrix::t` returns.
pub uninterp spec fn matrix_transposed(a: MatrixValue) -> MatrixValue;

/// What `Matrix + scalar` returns, the scalar being the single cell of `s`.
pub uninterp spec fn matrix_plus_scalar(m: MatrixValue, s: MatrixValue) -> MatrixValue;

/// What `Matrix - scalar` returns.  The provider subtracts the scalar from
/// every cell and then negates: it is the scalar less every cell.
pub uninterp spec fn matrix_minus_scalar(m: MatrixValue, s: MatrixValue) -> MatrixValue;

/// What `scalar - Matrix` returns.  The provider subtracts the scalar from
/// every cell: it is every cell less the scalar.
pub uninterp spec fn scalar_minus_matrix(s: MatrixValue, m: MatrixValue) -> MatrixValue;

/// What `Matrix * scalar` returns.
pub uninterp spec fn matrix_times_scalar(m: MatrixValue, s: MatrixValue) -> MatrixValue;

/// What `Matrix / scalar` returns.
pub uninterp spec fn matrix_over_scalar(m: MatrixValue, s: MatrixValue) -> MatrixValue;

/// The decimal text of the single cell of `s`, as `{}` formats it.
pub uninterp spec fn scalar_text(s: MatrixValue) -> Seq<char>;

/// The size of every axis of a tensor, in order.
pub uninterp spec fn tensor_shape(t: TensorValue) -> Seq<usize>;

/// What `SparseTensor + &SparseTensor` returns.
pub uninterp spec fn tensor_sum(a: TensorValue, b: TensorValue) -> TensorValue;

/// What `SparseTensor - &SparseTensor` returns.
pub uninterp spec fn tensor_difference(a: TensorValue, b: TensorValue) -> TensorValue;

/// What `SparseTensor * &SparseTensor` returns.
pub uninterp spec fn tensor_product(a: TensorValue, b: TensorValue) -> TensorValue;

/// What `SparseTensor / &SparseTensor` returns.
pub uninterp spec fn tensor_quotient(a: TensorValue, b: TensorValue) -> TensorValue;

/// What `-SparseTensor` returns.
pub uninterp spec fn tensor_negation(a: TensorValue) -> TensorValue;

/// What `SparseTensor + scalar` returns, the scalar being the single cell of
/// `s`.
pub uninterp spec fn tensor_plus_scalar(t: TensorValue, s: MatrixValue) -> TensorValue;

/// What `SparseTensor - scalar` returns.
pub uninterp spec fn tensor_minus_scalar(t: TensorValue, s: MatrixValue) -> TensorValue;

/// What `SparseTensor * scalar` returns.
pub uninterp spec fn tensor_times_scalar(t: TensorValue, s: MatrixValue) -> TensorValue;

/// What `SparseTensor / scalar` returns.
pub uninterp spec fn tensor_over_scalar(t: TensorValue, s: MatrixValue) -> TensorValue;

/// What `SparseTensor::dot` returns for the single rank pair `[left, right]`.
pub uninterp spec fn tensor_contraction(
    a: TensorValue,
    b: TensorValue,
    left: usize,
    right: usize,
) -> TensorValue;

/// What `SparseTensor::mul_kronecker_deltas` returns for the single delta
/// between the ranks `first` and `second`; `None` stands for its error.
pub uninterp spec fn tensor_delta_product(t: TensorValue, first: usize, second: usize) -> Option<
    TensorValue,
>;

/// What `SparseTensor::new` with every size one gives once its one cell is
/// set to `Number::one`: the tensor of `rank` axes that holds one.
pub uninterp spec fn unit_tensor(rank: nat) -> TensorValue;

/// Whether a tensor stores no cell: what `is_empty` on
/// `SparseTensor::elems` returns.
pub uninterp spec fn tensor_bare(t: TensorValue) -> bool;

/// What `SparseTensor::direct` returns.
pub uninterp spec fn tensor_direct_product(a: TensorValue, b: TensorValue) -> TensorValue;

/// The shape of `rank` axes of one element each.
pub open spec fn unit_shape(rank: nat) -> Seq<usize> {
    Seq::new(rank, |j: int| 1usize)
}

/// Whether one of two shapes has one element along axis `j`.
pub open spec fn free_at(a: Seq<usize>, b: Seq<usize>, j: int) -> bool {
    a[j] == 1 || b[j] == 1
}

/// Two shapes of which the second has every axis of the first, and along
/// each of those one of the two has one element.
pub open spec fn apart_axes(a: Seq<usize>, b: Seq<usize>) -> bool {
    &&& a.len() <= b.len()
    &&& forall|j: int| 0 <= j < a.len() ==> #[trigger] free_at(a, b, j)
}

/// The cell of a tensor at an index, as a matrix of one row and one column.
pub uninterp spec fn tensor_element(t: TensorValue, index: Seq<usize>) -> MatrixValue;

/// Whether a matrix is one that the provider's constructor makes: its cells
/// fill its rows and columns.  A matrix without rows holds no cell that a
/// call here reads.
pub open spec fn matrix_sound(m: MatrixValue) -> bool {
    matrix_rows(m) > 0 ==> matrix_rebuilt(m) == Some(m)
}

/// Whether a tensor is one that the provider's constructor makes: every
/// stored cell has an index of the tensor's rank within its sizes, and the
/// cells that are not stored are zero.
pub open spec fn tensor_sound(t: TensorValue) -> bool {
    tensor_rebuilt(t) == Some(t)
}

/// Whether a matrix is the carrier of a scalar: one row, one column.
pub open spec fn is_cell(m: MatrixValue) -> bool {
    matrix_rows(m) == 1 && matrix_cols(m) == 1
}

/// Whether two matrices have one shape.
pub open spec fn same_matrix_shape(a: MatrixValue, b: MatrixValue) -> bool {
    matrix_rows(a) == matrix_rows(b) && matrix_cols(a) == matrix_cols(b)
}

/// The shapes on which the provider contracts two tensors over one pair of
/// ranks without failing: equal ranks, the paired axes of equal size, every
/// other axis of size one on both sides but where the other side's paired
/// axis stands, and no empty axis beside the paired ones.
pub open spec fn contractible(a: Seq<usize>, b: Seq<usize>, left: usize, right: usize) -> bool {
    &&& a.len() == b.len()
    &&& left < a.len()
    &&& right < b.len()
    &&& a[left as int] == b[right as int]
    &&& forall|j: int| 0 <= j < a.len() && j != left ==> (#[trigger] a[j]) >= 1
    &&& forall|j: int| 0 <= j < b.len() && j != right ==> (#[trigger] b[j]) >= 1
    &&& forall|j: int| 0 <= j < a.len() && j != left && j != right ==> (#[trigger] a[j]) == 1
    &&& forall|j: int| 0 <= j < b.len() && j != left && j != right ==> (#[trigger] b[j]) == 1
}

/// Calls `Matrix::new`, which fills a matrix of the given shape with zeros.
#[verifier::external_body]
pub(crate) fn matrix_zeros(rows: usize, cols: usize) -> (r: MatrixValue)
    requires
        rows * cols <= usize::MAX,
    ensures
        r == zero_matrix(rows, cols),
        matrix_rows(r) == rows,
        matrix_cols(r) == cols,
        matrix_sound(r),
{
    MatrixValue { cells: Matrix::new(rows, cols) }
}

/// Calls `DiagonalMatrix::identity` and `DiagonalMatrix::mat`, which give the
/// identity matrix of `n` rows.
#[verifier::external_body]
pub(crate) fn matrix_identity(n: usize) -> (r: MatrixValue)
    requires
        n * n <= usize::MAX,
    ensures
        r == unit_matrix(n),
        matrix_rows(r) == n,
        matrix_cols(r) == n,
        matrix_sound(r),
{
    MatrixValue { cells: DiagonalMatrix::identity(n).mat() }
}

/// Calls `Matrix::vec` and `Matrix::from`, which divides by the number of
/// rows and refuses cells that do not fill them.
#[verifier::external_body]
pub(crate) fn matrix_rebuild(m: MatrixValue) -> (r: Option<MatrixValue>)
    requires
        matrix_rows(m) > 0,
    ensures
        r == matrix_rebuilt(m),
        r matches Some(v) ==> matrix_sound(v),
{
    let rows = m.cells.rows();
    match Matrix::from(rows, m.cells.vec()) {
        Ok(cells) => Some(MatrixValue { cells }),
        Err(_) => None,
    }
}

/// Calls `SparseTensor::eject` and `SparseTensor::from`, which refuses a
/// cell whose index has another length than the sizes or lies beyond them.
#[verifier::external_body]
pub(crate) fn tensor_rebuild(t: TensorValue) -> (r: Option<TensorValue>)
    ensures
        r == tensor_rebuilt(t),
        r matches Some(v) ==> tensor_sound(v),
{
    let (sizes, elems) = t.cells.eject();
    match SparseTensor::from(sizes, elems) {
        Ok(cells) => Some(TensorValue { cells }),
        Err(_) => None,
    }
}

impl MatrixValue {
    /// The matrix as the provider's own constructor makes it of its rows
    /// and cells; none of a matrix without rows, or of cells that do not
    /// fill the rows.
    pub fn checked(self) -> (r: Option<MatrixValue>)
        ensures
            r == if matrix_rows(self) > 0 {
                matrix_rebuilt(self)
            } else {
                None
            },
            r matches Some(v) ==> matrix_sound(v),
    {
        if matrix_row_count(&self) > 0 {
            matrix_rebuild(self)
        } else {
            None
        }
    }
}

impl TensorValue {
    /// The tensor as the provider's own constructor makes it of its sizes
    /// and cells; none where a cell lies beyond the sizes.
    pub fn checked(self) -> (r: Option<TensorValue>)
        ensures
            r == tensor_rebuilt(self),
            r matches Some(v) ==> tensor_sound(v),
    {
        tensor_rebuild(self)
    }
}

/// Calls `Matrix::rows`.
#[verifier::external_body]
pub(crate) fn matrix_row_count(m: &MatrixValue) -> (r: usize)
    ensures
        r == matrix_rows(*m),
{
    m.cells.rows()
}

/// Calls `Matrix::cols`.
#[verifier::external_body]
pub(crate) fn matrix_col_count(m: &MatrixValue) -> (r: usize)
    ensures
        r == matrix_cols(*m),
{
    m.cells.cols()
}

/// Calls `Matrix::clone`: the copy is the same value.
#[verifier::external_body]
pub(crate) fn matrix_copy(m: &MatrixValue) -> (r: MatrixValue)
    ensures
        r == *m,
{
    MatrixValue { cells: m.cells.clone() }
}

/// Calls `==` of `Matrix`.
#[verifier::external_body]
pub(crate) fn matrix_same(a: &MatrixValue, b: &MatrixValue) -> (r: bool)
    ensures
        r == matrix_equal(*a, *b),
{
    a.cells == b.cells
}

/// Calls `Matrix + &Matrix`, which fails on two shapes and keeps the shape.
#[verifier::external_body]
pub(crate) fn matrix_add(a: &MatrixValue, b: &MatrixValue) -> (r: MatrixValue)
    requires
        matrix_sound(*a),
        matrix_sound(*b),
        same_matrix_shape(*a, *b),
    ensures
        r == matrix_sum(*a, *b),
        same_matrix_shape(r, *a),
        matrix_sound(r),
{
    MatrixValue { cells: a.cells.clone() + &b.cells }
}

/// Calls `Matrix - &Matrix`, which fails on two shapes and keeps the shape.
#[verifier::external_body]
pub(crate) fn matrix_sub(a: &MatrixValue, b: &MatrixValue) -> (r: MatrixValue)
    requires
        matrix_sound(*a),
        matrix_sound(*b),
        same_matrix_shape(*a, *b),
    ensures
        r == matrix_difference(*a, *b),
        same_matrix_shape(r, *a),
        matrix_sound(r),
{
    MatrixValue { cells: a.cells.clone() - &b.cells }
}

/// Calls `Matrix * &Matrix`, which fails on two shapes and keeps the shape.
#[verifier::external_body]
pub(crate) fn matrix_mul(a: &MatrixValue, b: &MatrixValue) -> (r: MatrixValue)
    requires
        matrix_sound(*a),
        matrix_sound(*b),
        same_matrix_shape(*a, *b),
    ensures
        r == matrix_product(*a, *b),
        same_matrix_shape(r, *a),
        matrix_sound(r),
{
    MatrixValue { cells: a.cells.clone() * &b.cells }
}

/// Calls `Matrix / &Matrix`, which fails on two shapes and keeps the shape.
#[verifier::external_body]
pub(crate) fn matrix_div(a: &MatrixValue, b: &MatrixValue) -> (r: MatrixValue)
    requires
        matrix_sound(*a),
        matrix_sound(*b),
        same_matrix_shape(*a, *b),
    ensures
        r == matrix_quotient(*a, *b),
        same_matrix_shape(r, *a),
        matrix_sound(r),
{
    MatrixValue { cells: a.cells.clone() / &b.cells }
}

/// Calls `-Matrix`, which keeps the shape.
#[verifier::external_body]
pub(crate) fn matrix_neg(a: &MatrixValue) -> (r: MatrixValue)
    requires
        matrix_sound(*a),
    ensures
        r == matrix_negation(*a),
        same_matrix_shape(r, *a),
        matrix_sound(r),
{
    MatrixValue { cells: -a.cells.clone() }
}

/// Calls `Matrix::t`, which divides by the number of columns and swaps the
/// two dimensions.
#[verifier::external_body]
pub(crate) fn matrix_transpose(a: &MatrixValue) -> (r: MatrixValue)
    requires
        matrix_sound(*a),
        matrix_cols(*a) > 0,
    ensures
        r == matrix_transposed(*a),
        matrix_rows(r) == matrix_cols(*a),
        matrix_cols(r) == matrix_rows(*a),
        matrix_sound(r),
{
    MatrixValue { cells: a.cells.t() }
}

/// Calls `Matrix + scalar` with the cell of `s`; the shape is kept.
#[verifier::external_body]
pub(crate) fn matrix_add_scalar(m: &MatrixValue, s: &MatrixValue) -> (r: MatrixValue)
    requires
        matrix_sound(*m),
        matrix_sound(*s),
        is_cell(*s),
    ensures
        r == matrix_plus_scalar(*m, *s),
        same_matrix_shape(r, *m),
        matrix_sound(r),
{
    MatrixValue { cells: m.cells.clone() + s.cells[(0, 0)] }
}

/// Calls `Matrix - scalar` with the cell of `s`; the shape is kept.
#[verifier::external_body]
pub(crate) fn matrix_sub_scalar(m: &MatrixValue, s: &MatrixValue) -> (r: MatrixValue)
    requires
        matrix_sound(*m),
        matrix_sound(*s),
        is_cell(*s),
    ensures
        r == matrix_minus_scalar(*m, *s),
        same_matrix_shape(r, *m),
        matrix_sound(r),
{
    MatrixValue { cells: m.cells.clone() - s.cells[(0, 0)] }
}

/// Calls `scalar - Matrix` with the cell of `s`; the shape is kept.
#[verifier::external_body]
pub(crate) fn scalar_sub_matrix(s: &MatrixValue, m: &MatrixValue) -> (r: MatrixValue)
    requires
        matrix_sound(*s),
        matrix_sound(*m),
        is_cell(*s),
    ensures
        r == scalar_minus_matrix(*s, *m),
        same_matrix_shape(r, *m),
        matrix_sound(r),
{
    MatrixValue { cells: s.cells[(0, 0)] - m.cells.clone() }
}

/// Calls `Matrix * scalar` with the cell of `s`; the shape is kept.
#[verifier::external_body]
pub(crate) fn matrix_mul_scalar(m: &MatrixValue, s: &MatrixValue) -> (r: MatrixValue)
    requires
        matrix_sound(*m),
        matrix_sound(*s),
        is_cell(*s),
    ensures
        r == matrix_times_scalar(*m, *s),
        same_matrix_shape(r, *m),
        matrix_sound(r),
{
    MatrixValue { cells: m.cells.clone() * s.cells[(0, 0)] }
}

/// Calls `Matrix / scalar` with the cell of `s`; the shape is kept.
#[verifier::external_body]
pub(crate) fn matrix_div_scalar(m: &MatrixValue, s: &MatrixValue) -> (r: MatrixValue)
    requires
        matrix_sound(*m),
        matrix_sound(*s),
        is_cell(*s),
    ensures
        r == matrix_over_scalar(*m, *s),
        same_matrix_shape(r, *m),
        matrix_sound(r),
{
    MatrixValue { cells: m.cells.clone() / s.cells[(0, 0)] }
}

/// Formats the cell of `s` with `{}`.
#[verifier::external_body]
pub(crate) fn scalar_to_text(s: &MatrixValue) -> (r: String)
    requires
        matrix_sound(*s),
        is_cell(*s),
    ensures
        r@ == scalar_text(*s),
{
    format!("{}", s.cells[(0, 0)])
}

/// Calls `Tensor::rank`: the number of axes.
#[verifier::external_body]
pub(crate) fn tensor_rank(t: &TensorValue) -> (r: usize)
    ensures
        r == tensor_shape(*t).len(),
{
    t.cells.rank()
}

/// Calls `Tensor::size`, which fails beyond the last axis.
#[verifier::external_body]
pub(crate) fn tensor_size(t: &TensorValue, rank: usize) -> (r: usize)
    requires
        rank < tensor_shape(*t).len(),
    ensures
        r == tensor_shape(*t)[rank as int],
{
    t.cells.size(rank)
}

/// Calls `SparseTensor::clone`: the copy is the same value.
#[verifier::external_body]
pub(crate) fn tensor_copy(t: &TensorValue) -> (r: TensorValue)
    ensures
        r == *t,
{
    TensorValue { cells: t.cells.clone() }
}

/// Calls `SparseTensor + &SparseTensor`, which fails on two shapes and keeps
/// the shape.
#[verifier::external_body]
pub(crate) fn tensor_add(a: &TensorValue, b: &TensorValue) -> (r: TensorValue)
    requires
        tensor_sound(*a),
        tensor_sound(*b),
        tensor_shape(*a) == tensor_shape(*b),
    ensures
        r == tensor_sum(*a, *b),
        tensor_shape(r) == tensor_shape(*a),
        tensor_sound(r),
{
    TensorValue { cells: a.cells.clone() + &b.cells }
}

/// Calls `SparseTensor - &SparseTensor`, which fails on two shapes and keeps
/// the shape.
#[verifier::external_body]
pub(crate) fn tensor_sub(a: &TensorValue, b: &TensorValue) -> (r: TensorValue)
    requires
        tensor_sound(*a),
        tensor_sound(*b),
        tensor_shape(*a) == tensor_shape(*b),
    ensures
        r == tensor_difference(*a, *b),
        tensor_shape(r) == tensor_shape(*a),
        tensor_sound(r),
{
    TensorValue { cells: a.cells.clone() - &b.cells }
}

/// Calls `SparseTensor * &SparseTensor`, which fails on two shapes and keeps
/// the shape.
#[verifier::external_body]
pub(crate) fn tensor_mul(a: &TensorValue, b: &TensorValue) -> (r: TensorValue)
    requires
        tensor_sound(*a),
        tensor_sound(*b),
        tensor_shape(*a) == tensor_shape(*b),
    ensures
        r == tensor_product(*a, *b),
        tensor_shape(r) == tensor_shape(*a),
        tensor_sound(r),
{
    TensorValue { cells: a.cells.clone() * &b.cells }
}

/// Calls `SparseTensor / &SparseTensor`, which fails on two shapes and keeps
/// the shape.
#[verifier::external_body]
pub(crate) fn tensor_div(a: &TensorValue, b: &TensorValue) -> (r: TensorValue)
    requires
        tensor_sound(*a),
        tensor_sound(*b),
        tensor_shape(*a) == tensor_shape(*b),
    ensures
        r == tensor_quotient(*a, *b),
        tensor_shape(r) == tensor_shape(*a),
        tensor_sound(r),
{
    TensorValue { cells: a.cells.clone() / &b.cells }
}

/// Calls `-SparseTensor`, which keeps the shape.
#[verifier::external_body]
pub(crate) fn tensor_neg(a: &TensorValue) -> (r: TensorValue)
    requires
        tensor_sound(*a),
    ensures
        r == tensor_negation(*a),
        tensor_shape(r) == tensor_shape(*a),
        tensor_sound(r),
{
    TensorValue { cells: -a.cells.clone() }
}

/// Calls `SparseTensor + scalar` with the cell of `s`; the shape is kept.
#[verifier::external_body]
pub(crate) fn tensor_add_scalar(t: &TensorValue, s: &MatrixValue) -> (r: TensorValue)
    requires
        tensor_sound(*t),
        matrix_sound(*s),
        is_cell(*s),
    ensures
        r == tensor_plus_scalar(*t, *s),
        tensor_shape(r) == tensor_shape(*t),
        tensor_sound(r),
{
    TensorValue { cells: t.cells.clone() + s.cells[(0, 0)] }
}

/// Calls `SparseTensor - scalar` with the cell of `s`; the shape is kept.
#[verifier::external_body]
pub(crate) fn tensor_sub_scalar(t: &TensorValue, s: &MatrixValue) -> (r: TensorValue)
    requires
        tensor_sound(*t),
        matrix_sound(*s),
        is_cell(*s),
    ensures
        r == tensor_minus_scalar(*t, *s),
        tensor_shape(r) == tensor_shape(*t),
        tensor_sound(r),
{
    TensorValue { cells: t.cells.clone() - s.cells[(0, 0)] }
}

/// Calls `SparseTensor * scalar` with the cell of `s`; the shape is kept.
#[verifier::external_body]
pub(crate) fn tensor_mul_scalar(t: &TensorValue, s: &MatrixValue) -> (r: TensorValue)
    requires
        tensor_sound(*t),
        matrix_sound(*s),
        is_cell(*s),
    ensures
        r == tensor_times_scalar(*t, *s),
        tensor_shape(r) == tensor_shape(*t),
        tensor_sound(r),
{
    TensorValue { cells: t.cells.clone() * s.cells[(0, 0)] }
}

/// Calls `SparseTensor / scalar` with the cell of `s`; the shape is kept.
#[verifier::external_body]
pub(crate) fn tensor_div_scalar(t: &TensorValue, s: &MatrixValue) -> (r: TensorValue)
    requires
        tensor_sound(*t),
        matrix_sound(*s),
        is_cell(*s),
    ensures
        r == tensor_over_scalar(*t, *s),
        tensor_shape(r) == tensor_shape(*t),
        tensor_sound(r),
{
    TensorValue { cells: t.cells.clone() / s.cells[(0, 0)] }
}

/// Calls `SparseTensor::dot` with one rank pair.  The provider indexes both
/// tensors with indices of the result's rank and compares the paired sizes,
/// so it fails outside the shapes of `contractible`.
#[verifier::external_body]
pub(crate) fn tensor_dot(a: &TensorValue, b: &TensorValue, left: usize, right: usize) -> (r:
    TensorValue)
    requires
        tensor_sound(*a),
        tensor_sound(*b),
        contractible(tensor_shape(*a), tensor_shape(*b), left, right),
    ensures
        r == tensor_contraction(*a, *b, left, right),
        tensor_sound(r),
{
    TensorValue { cells: a.cells.dot(&b.cells, &[[left, right]]) }
}

/// Calls `SparseTensor::mul_kronecker_deltas` with one delta.  The provider
/// indexes the shape at both ranks, and moves every cell's index from the
/// lower rank to the higher one, whose own index it drops: the result is one
/// value only where that axis has size one.
#[verifier::external_body]
pub(crate) fn tensor_mul_delta(t: &TensorValue, first: usize, second: usize) -> (r: Option<
    TensorValue,
>)
    requires
        tensor_sound(*t),
        first < tensor_shape(*t).len(),
        second < tensor_shape(*t).len(),
        first < second ==> tensor_shape(*t)[second as int] == 1,
        second < first ==> tensor_shape(*t)[first as int] == 1,
    ensures
        r == tensor_delta_product(*t, first, second),
        r matches Some(v) ==> tensor_sound(v),
{
    match t.cells.mul_kronecker_deltas(&[KroneckerDelta(first, second)]) {
        Ok(cells) => Some(TensorValue { cells }),
        Err(_) => None,
    }
}

/// Calls `SparseTensor::new` with the sizes, all of them one, and sets the
/// cell at the index, all of it zero, to `Number::one` through the index
/// operator, which fails on an index outside the sizes.
#[verifier::external_body]
pub(crate) fn tensor_one(sizes: &Vec<usize>, index: &Vec<usize>) -> (r: TensorValue)
    requires
        sizes@ == unit_shape(sizes@.len()),
        index@ == Seq::new(sizes@.len(), |j: int| 0usize),
    ensures
        r == unit_tensor(sizes@.len()),
        tensor_shape(r) == sizes@,
        !tensor_bare(r),
        tensor_sound(r),
{
    let mut cells = SparseTensor::new(sizes.clone());
    cells[&index[..]] = Number::one();
    TensorValue { cells }
}

/// Calls `is_empty` on `SparseTensor::elems`.
#[verifier::external_body]
pub(crate) fn tensor_is_bare(t: &TensorValue) -> (r: bool)
    ensures
        r == tensor_bare(*t),
{
    t.cells.elems().is_empty()
}

/// Calls `SparseTensor::direct`.  The provider pairs every stored cell of
/// the first tensor with every stored cell of the second, and multiplies the
/// sizes and the indices axis by axis.  Where the first stores no cell or has
/// no axis it starts anew from the cells of the second, which then may lie
/// outside the sizes: those operands are left out.  On the shapes of
/// `apart_axes`, taken from the second to the first, no size overflows.
#[verifier::external_body]
pub(crate) fn tensor_direct(a: &TensorValue, b: &TensorValue) -> (r: TensorValue)
    requires
        tensor_sound(*a),
        tensor_sound(*b),
        !tensor_bare(*a),
        tensor_shape(*a).len() >= 1,
        apart_axes(tensor_shape(*b), tensor_shape(*a)),
    ensures
        r == tensor_direct_product(*a, *b),
        tensor_sound(r),
{
    TensorValue { cells: a.cells.direct(&b.cells) }
}

/// Reads one cell with `SparseTensor`'s index operator, which fails on an
/// index of another length or beyond a size, and wraps it with
/// `Matrix::from` as a matrix of one row and one column.
#[verifier::external_body]
pub(crate) fn tensor_cell(t: &TensorValue, index: &Vec<usize>) -> (r: MatrixValue)
    requires
        tensor_sound(*t),
        index@.len() == tensor_shape(*t).len(),
        forall|k: int| 0 <= k < index@.len() ==> index@[k] < tensor_shape(*t)[k],
    ensures
        r == tensor_element(*t, index@),
        is_cell(r),
        matrix_sound(r),
{
    MatrixValue { cells: Matrix::from(1, vec![t.cells[&index[..]]]).unwrap() }
}

} // verus!
