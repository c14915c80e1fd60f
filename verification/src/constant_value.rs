//! Numeric constants: a scalar, a sparse tensor or a dense matrix, with the
//! arithmetic that broadcasts a scalar over the other two.

use crate::error::AlgebraError;
use crate::provider::MatrixValue;
use crate::provider::TensorValue;
use crate::provider::is_cell;
use crate::provider::matrix_sound;
use crate::provider::tensor_rebuilt;
use crate::provider::tensor_sound;
use crate::provider::matrix_add;
use crate::provider::matrix_add_scalar;
use crate::provider::matrix_col_count;
use crate::provider::matrix_cols;
use crate::provider::matrix_copy;
use crate::provider::matrix_difference;
use crate::provider::matrix_div;
use crate::provider::matrix_div_scalar;
use crate::provider::matrix_equal;
use crate::provider::matrix_identity;
use crate::provider::matrix_minus_scalar;
use crate::provider::matrix_mul;
use crate::provider::matrix_mul_scalar;
use crate::provider::matrix_neg;
use crate::provider::matrix_negation;
use crate::provider::matrix_over_scalar;
use crate::provider::matrix_plus_scalar;
use crate::provider::matrix_product;
use crate::provider::matrix_quotient;
use crate::provider::matrix_rebuilt;
use crate::provider::matrix_row_count;
use crate::provider::matrix_rows;
use crate::provider::matrix_same;
use crate::provider::matrix_sub;
use crate::provider::matrix_sub_scalar;
use crate::provider::matrix_sum;
use crate::provider::matrix_times_scalar;
use crate::provider::matrix_zeros;
use crate::provider::same_matrix_shape;
use crate::provider::scalar_minus_matrix;
use crate::provider::scalar_sub_matrix;
use crate::provider::scalar_text;
use crate::provider::scalar_to_text;
use crate::provider::tensor_add;
use crate::provider::tensor_add_scalar;
use crate::provider::tensor_copy;
use crate::provider::tensor_difference;
use crate::provider::tensor_div;
use crate::provider::tensor_div_scalar;
use crate::provider::tensor_minus_scalar;
use crate::provider::tensor_mul;
use crate::provider::tensor_mul_scalar;
use crate::provider::tensor_neg;
use crate::provider::tensor_negation;
use crate::provider::tensor_over_scalar;
use crate::provider::tensor_plus_scalar;
use crate::provider::tensor_product;
use crate::provider::tensor_quotient;
use crate::provider::tensor_rank;
use crate::provider::tensor_shape;
use crate::provider::tensor_size;
use crate::provider::tensor_sub;
use crate::provider::tensor_sub_scalar;
use crate::provider::tensor_sum;
use crate::provider::tensor_times_scalar;
use crate::provider::unit_matrix;
use crate::provider::zero_matrix;
use crate::size::classify_shape;
use crate::size::size_class;
use crate::size::size_classes;
use crate::size::Size;
use vstd::prelude::*;

verus! {

/// What the simplification rules read of a scalar: whether it is the
/// additive or the multiplicative identity.
#[derive(Clone, Copy, Debug, PartialEq, Eq, Structural)]
pub enum ScalarClass {
    Zero,
    One,
    Other,
}

/// The mathematical content of a [`Scalar`].
pub struct ScalarModel {
    pub cell: MatrixValue,
    pub class: ScalarClass,
}

impl ScalarModel {
    /// The scalar carried by a cell.  A cell that the provider finds equal
    /// to its zero stands for zero itself, and one equal to its unit for
    /// one itself: there is one zero and one one.
    pub open spec fn of(cell: MatrixValue) -> ScalarModel {
        if matrix_equal(cell, zero_matrix(1, 1)) {
            ScalarModel::zero()
        } else if matrix_equal(cell, unit_matrix(1)) {
            ScalarModel::one()
        } else {
            ScalarModel { cell, class: ScalarClass::Other }
        }
    }

    pub open spec fn zero() -> ScalarModel {
        ScalarModel { cell: zero_matrix(1, 1), class: ScalarClass::Zero }
    }

    pub open spec fn one() -> ScalarModel {
        ScalarModel { cell: unit_matrix(1), class: ScalarClass::One }
    }

    /// The cell has one row and one column and holds its one number; the
    /// class `Zero` has the
    /// provider's zero as its cell, and the class `One` its unit.
    pub open spec fn wf(self) -> bool {
        &&& is_cell(self.cell)
        &&& matrix_sound(self.cell)
        &&& self.class == ScalarClass::Zero ==> self.cell == zero_matrix(1, 1)
        &&& self.class == ScalarClass::One ==> self.cell == unit_matrix(1)
    }

    /// Whether the scalar is zero.
    pub open spec fn is_zero(self) -> bool {
        self == ScalarModel::zero()
    }

    /// Whether the scalar is one.
    pub open spec fn is_one(self) -> bool {
        self == ScalarModel::one()
    }
}

/// The scalar that a matrix is taken in as: the matrix is rebuilt by the
/// provider's own constructor, and needs one row and one column.
pub open spec fn taken(cell: MatrixValue) -> Option<ScalarModel> {
    if matrix_rows(cell) > 0 {
        match matrix_rebuilt(cell) {
            Some(c) => if is_cell(c) {
                Some(ScalarModel::of(c))
            } else {
                None
            },
            None => None,
        }
    } else {
        None
    }
}

/// A scalar constant: one cell of the provider, together with its class.
#[derive(Debug, PartialEq)]
pub struct Scalar {
    cell: MatrixValue,
    class: ScalarClass,
}

impl View for Scalar {
    type V = ScalarModel;

    closed spec fn view(&self) -> ScalarModel {
        ScalarModel { cell: self.cell, class: self.class }
    }
}

impl Scalar {
    #[verifier::type_invariant]
    spec fn well_formed(self) -> bool {
        self@.wf()
    }

    /// The scalar carried by `cell`, if `cell`, as the provider's own
    /// constructor makes it of its rows and cells, has one row and one
    /// column.
    pub fn new(cell: MatrixValue) -> (r: Option<Scalar>)
        ensures
            match r {
                Some(s) => taken(cell) == Some(s@),
                None => taken(cell) is None,
            },
    {
        match cell.checked() {
            None => None,
            Some(c) => {
                if matrix_row_count(&c) == 1 && matrix_col_count(&c) == 1 {
                    Some(Scalar::classified(c))
                } else {
                    None
                }
            },
        }
    }

    pub(crate) fn classified(cell: MatrixValue) -> (r: Scalar)
        requires
            is_cell(cell),
            matrix_sound(cell),
        ensures
            r@ == ScalarModel::of(cell),
    {
        let zero = matrix_zeros(1, 1);
        let unit = matrix_identity(1);
        if matrix_same(&cell, &zero) {
            Scalar { cell: zero, class: ScalarClass::Zero }
        } else if matrix_same(&cell, &unit) {
            Scalar { cell: unit, class: ScalarClass::One }
        } else {
            Scalar { cell, class: ScalarClass::Other }
        }
    }

    pub fn zero() -> (r: Scalar)
        ensures
            r@ == ScalarModel::zero(),
    {
        Scalar { cell: matrix_zeros(1, 1), class: ScalarClass::Zero }
    }

    pub fn one() -> (r: Scalar)
        ensures
            r@ == ScalarModel::one(),
    {
        Scalar { cell: matrix_identity(1), class: ScalarClass::One }
    }

    /// The provider's cell that carries the scalar.
    pub fn cell(&self) -> (r: &MatrixValue)
        ensures
            *r == self@.cell,
            is_cell(*r),
            matrix_sound(*r),
    {
        proof {
            use_type_invariant(self);
        }
        &self.cell
    }

    pub fn class(&self) -> (r: ScalarClass)
        ensures
            r == self@.class,
    {
        self.class
    }

    pub fn is_zero(&self) -> (r: bool)
        ensures
            r == self@.is_zero(),
    {
        proof {
            use_type_invariant(self);
        }
        match self.class {
            ScalarClass::Zero => true,
            _ => false,
        }
    }

    pub fn is_one(&self) -> (r: bool)
        ensures
            r == self@.is_one(),
    {
        proof {
            use_type_invariant(self);
        }
        match self.class {
            ScalarClass::One => true,
            _ => false,
        }
    }

    pub fn duplicate(&self) -> (r: Scalar)
        ensures
            r@ == self@,
    {
        proof {
            use_type_invariant(self);
        }
        Scalar { cell: matrix_copy(&self.cell), class: self.class }
    }

    /// The decimal text of the scalar.
    pub fn to_text(&self) -> (r: String)
        ensures
            r@ == scalar_text(self@.cell),
    {
        proof {
            use_type_invariant(self);
        }
        scalar_to_text(&self.cell)
    }
}

/// The cell that carries a natural number: zero, or twice the cell of its
/// half, with the unit added for an odd number.
pub open spec fn nat_cell(n: nat) -> MatrixValue
    decreases n,
{
    if n == 0 {
        zero_matrix(1, 1)
    } else {
        let half = nat_cell(n / 2);
        let twice = matrix_sum(half, half);
        if n % 2 == 1 {
            matrix_sum(twice, unit_matrix(1))
        } else {
            twice
        }
    }
}

/// The cell that carries an integer.
pub open spec fn int_cell(n: int) -> MatrixValue {
    if n >= 0 {
        nat_cell(n as nat)
    } else {
        matrix_negation(nat_cell((-n) as nat))
    }
}

/// The cell that carries the quotient of two integers.
pub open spec fn ratio_cell(num: int, den: nat) -> MatrixValue {
    matrix_quotient(int_cell(num), nat_cell(den))
}

fn cell_of_nat(n: u64) -> (r: MatrixValue)
    ensures
        r == nat_cell(n as nat),
        is_cell(r),
        matrix_sound(r),
    decreases n,
{
    if n == 0 {
        matrix_zeros(1, 1)
    } else {
        let half = cell_of_nat(n / 2);
        let twice = matrix_add(&half, &half);
        if n % 2 == 1 {
            let unit = matrix_identity(1);
            matrix_add(&twice, &unit)
        } else {
            twice
        }
    }
}

fn cell_of_int(n: i64) -> (r: MatrixValue)
    ensures
        r == int_cell(n as int),
        is_cell(r),
        matrix_sound(r),
{
    if n >= 0 {
        cell_of_nat(n as u64)
    } else {
        let size: u64 = ((-(n + 1)) as u64) + 1;
        let positive = cell_of_nat(size);
        matrix_neg(&positive)
    }
}

impl Scalar {
    /// The scalar `num / den`.
    pub fn from_ratio(num: i64, den: u64) -> (r: Scalar)
        ensures
            r@ == ScalarModel::of(ratio_cell(num as int, den as nat)),
    {
        let above = cell_of_int(num);
        let below = cell_of_nat(den);
        Scalar::classified(matrix_div(&above, &below))
    }
}

/// The tensor whose cells are the scalar of `s` divided by the cells of `t`:
/// the cells of `t` are set to zero and then to the scalar, and the result
/// is divided by `t` cell by cell.
pub open spec fn scalar_by_tensor(s: MatrixValue, t: TensorValue) -> TensorValue {
    tensor_quotient(tensor_plus_scalar(tensor_times_scalar(t, zero_matrix(1, 1)), s), t)
}

/// The matrix whose cells are the scalar of `s` divided by the cells of `m`.
pub open spec fn scalar_by_matrix(s: MatrixValue, m: MatrixValue) -> MatrixValue {
    matrix_quotient(matrix_plus_scalar(matrix_times_scalar(m, zero_matrix(1, 1)), s), m)
}

fn divide_scalar_by_tensor(s: &MatrixValue, t: &TensorValue) -> (r: TensorValue)
    requires
        is_cell(*s),
        matrix_sound(*s),
        tensor_sound(*t),
    ensures
        r == scalar_by_tensor(*s, *t),
        tensor_sound(r),
{
    let zero = matrix_zeros(1, 1);
    let cleared = tensor_mul_scalar(t, &zero);
    let filled = tensor_add_scalar(&cleared, s);
    tensor_div(&filled, t)
}

fn divide_scalar_by_matrix(s: &MatrixValue, m: &MatrixValue) -> (r: MatrixValue)
    requires
        is_cell(*s),
        matrix_sound(*s),
        matrix_sound(*m),
    ensures
        r == scalar_by_matrix(*s, *m),
        matrix_sound(r),
{
    let zero = matrix_zeros(1, 1);
    let cleared = matrix_mul_scalar(m, &zero);
    let filled = matrix_add_scalar(&cleared, s);
    matrix_div(&filled, m)
}

/// A numeric tensor of the provider that its own constructor has made or
/// accepted: every stored cell lies within the sizes.
#[derive(Debug, PartialEq)]
pub struct NumericTensor {
    value: TensorValue,
}

impl View for NumericTensor {
    type V = TensorValue;

    closed spec fn view(&self) -> TensorValue {
        self.value
    }
}

impl NumericTensor {
    #[verifier::type_invariant]
    spec fn well_formed(self) -> bool {
        tensor_sound(self.value)
    }

    /// The tensor as the provider's constructor makes it of the sizes and
    /// the cells of `value`; none where it refuses them.
    pub fn new(value: TensorValue) -> (r: Option<NumericTensor>)
        ensures
            match r {
                Some(t) => tensor_rebuilt(value) == Some(t@),
                None => tensor_rebuilt(value) is None,
            },
    {
        match value.checked() {
            Some(value) => Some(NumericTensor { value }),
            None => None,
        }
    }

    pub(crate) fn trusted(value: TensorValue) -> (r: NumericTensor)
        requires
            tensor_sound(value),
        ensures
            r@ == value,
    {
        NumericTensor { value }
    }

    /// The provider's tensor.
    pub fn value(&self) -> (r: &TensorValue)
        ensures
            *r == self@,
            tensor_sound(*r),
    {
        proof {
            use_type_invariant(self);
        }
        &self.value
    }

    pub fn duplicate(&self) -> (r: NumericTensor)
        ensures
            r@ == self@,
    {
        proof {
            use_type_invariant(self);
        }
        NumericTensor { value: tensor_copy(&self.value) }
    }
}

/// A numeric matrix of the provider that its own constructor has made or
/// accepted: its cells fill its rows and columns.
#[derive(Debug, PartialEq)]
pub struct NumericMatrix {
    value: MatrixValue,
}

impl View for NumericMatrix {
    type V = MatrixValue;

    closed spec fn view(&self) -> MatrixValue {
        self.value
    }
}

impl NumericMatrix {
    #[verifier::type_invariant]
    spec fn well_formed(self) -> bool {
        matrix_sound(self.value)
    }

    /// The matrix as the provider's constructor makes it of the rows and
    /// the cells of `value`; none of a matrix without rows, or of cells that
    /// do not fill the rows.
    pub fn new(value: MatrixValue) -> (r: Option<NumericMatrix>)
        ensures
            match r {
                Some(m) => matrix_rows(value) > 0 && matrix_rebuilt(value) == Some(m@),
                None => matrix_rows(value) == 0 || matrix_rebuilt(value) is None,
            },
    {
        match value.checked() {
            Some(value) => Some(NumericMatrix { value }),
            None => None,
        }
    }

    pub(crate) fn trusted(value: MatrixValue) -> (r: NumericMatrix)
        requires
            matrix_sound(value),
        ensures
            r@ == value,
    {
        NumericMatrix { value }
    }

    /// The provider's matrix.
    pub fn value(&self) -> (r: &MatrixValue)
        ensures
            *r == self@,
            matrix_sound(*r),
    {
        proof {
            use_type_invariant(self);
        }
        &self.value
    }

    pub fn duplicate(&self) -> (r: NumericMatrix)
        ensures
            r@ == self@,
    {
        proof {
            use_type_invariant(self);
        }
        NumericMatrix { value: matrix_copy(&self.value) }
    }
}

/// The mathematical content of a [`ConstantValue`].
pub enum ConstantModel {
    Scalar(ScalarModel),
    Tensor(TensorValue),
    Matrix(MatrixValue),
}

/// A numeric constant.
#[derive(Debug, PartialEq)]
pub enum ConstantValue {
    Scalar(Scalar),
    Tensor(NumericTensor),
    Matrix(NumericMatrix),
}

impl View for ConstantValue {
    type V = ConstantModel;

    open spec fn view(&self) -> ConstantModel {
        match self {
            ConstantValue::Scalar(s) => ConstantModel::Scalar(s@),
            ConstantValue::Tensor(t) => ConstantModel::Tensor(t@),
            ConstantValue::Matrix(m) => ConstantModel::Matrix(m@),
        }
    }
}

impl ConstantModel {
    /// The shape: none for a scalar, one class per axis for a tensor, the
    /// classes of rows and columns for a matrix.
    pub open spec fn sizes(self) -> Seq<Size> {
        match self {
            ConstantModel::Scalar(_) => Seq::empty(),
            ConstantModel::Tensor(t) => size_classes(tensor_shape(t)),
            ConstantModel::Matrix(m) => seq![size_class(matrix_rows(m)), size_class(matrix_cols(m))],
        }
    }

    /// The concrete size of every axis.
    pub open spec fn dimensions(self) -> Seq<usize> {
        match self {
            ConstantModel::Scalar(_) => Seq::empty(),
            ConstantModel::Tensor(t) => tensor_shape(t),
            ConstantModel::Matrix(m) => seq![matrix_rows(m), matrix_cols(m)],
        }
    }

    pub open spec fn is_zero_scalar(self) -> bool {
        self matches ConstantModel::Scalar(s) && s.is_zero()
    }

    pub open spec fn is_one_scalar(self) -> bool {
        self matches ConstantModel::Scalar(s) && s.is_one()
    }

    /// The sum.  A scalar is added to every cell of a tensor or a matrix; two
    /// tensors or two matrices need one shape; a tensor and a matrix do not
    /// combine.
    pub open spec fn add(self, rhs: ConstantModel) -> Result<ConstantModel, AlgebraError> {
        match (self, rhs) {
            (ConstantModel::Scalar(a), ConstantModel::Scalar(b)) => Ok(
                ConstantModel::Scalar(ScalarModel::of(matrix_sum(a.cell, b.cell))),
            ),
            (ConstantModel::Scalar(a), ConstantModel::Tensor(b)) => Ok(
                ConstantModel::Tensor(tensor_plus_scalar(b, a.cell)),
            ),
            (ConstantModel::Scalar(a), ConstantModel::Matrix(b)) => Ok(
                ConstantModel::Matrix(matrix_plus_scalar(b, a.cell)),
            ),
            (ConstantModel::Tensor(a), ConstantModel::Scalar(b)) => Ok(
                ConstantModel::Tensor(tensor_plus_scalar(a, b.cell)),
            ),
            (ConstantModel::Matrix(a), ConstantModel::Scalar(b)) => Ok(
                ConstantModel::Matrix(matrix_plus_scalar(a, b.cell)),
            ),
            (ConstantModel::Tensor(a), ConstantModel::Tensor(b)) => if tensor_shape(a)
                == tensor_shape(b) {
                Ok(ConstantModel::Tensor(tensor_sum(a, b)))
            } else {
                Err(AlgebraError::ShapeMismatch)
            },
            (ConstantModel::Matrix(a), ConstantModel::Matrix(b)) => if same_matrix_shape(a, b) {
                Ok(ConstantModel::Matrix(matrix_sum(a, b)))
            } else {
                Err(AlgebraError::ShapeMismatch)
            },
            _ => Err(AlgebraError::VariantMismatch),
        }
    }

    /// The difference, with the cases of [`ConstantModel::add`].
    pub open spec fn sub(self, rhs: ConstantModel) -> Result<ConstantModel, AlgebraError> {
        match (self, rhs) {
            (ConstantModel::Scalar(a), ConstantModel::Scalar(b)) => Ok(
                ConstantModel::Scalar(ScalarModel::of(matrix_difference(a.cell, b.cell))),
            ),
            (ConstantModel::Scalar(a), ConstantModel::Tensor(b)) => Ok(
                ConstantModel::Tensor(tensor_negation(tensor_minus_scalar(b, a.cell))),
            ),
            (ConstantModel::Scalar(a), ConstantModel::Matrix(b)) => Ok(
                ConstantModel::Matrix(matrix_minus_scalar(b, a.cell)),
            ),
            (ConstantModel::Tensor(a), ConstantModel::Scalar(b)) => Ok(
                ConstantModel::Tensor(tensor_minus_scalar(a, b.cell)),
            ),
            (ConstantModel::Matrix(a), ConstantModel::Scalar(b)) => Ok(
                ConstantModel::Matrix(scalar_minus_matrix(b.cell, a)),
            ),
            (ConstantModel::Tensor(a), ConstantModel::Tensor(b)) => if tensor_shape(a)
                == tensor_shape(b) {
                Ok(ConstantModel::Tensor(tensor_difference(a, b)))
            } else {
                Err(AlgebraError::ShapeMismatch)
            },
            (ConstantModel::Matrix(a), ConstantModel::Matrix(b)) => if same_matrix_shape(a, b) {
                Ok(ConstantModel::Matrix(matrix_difference(a, b)))
            } else {
                Err(AlgebraError::ShapeMismatch)
            },
            _ => Err(AlgebraError::VariantMismatch),
        }
    }

    /// The product cell by cell, with the cases of [`ConstantModel::add`].
    pub open spec fn mul(self, rhs: ConstantModel) -> Result<ConstantModel, AlgebraError> {
        match (self, rhs) {
            (ConstantModel::Scalar(a), ConstantModel::Scalar(b)) => Ok(
                ConstantModel::Scalar(ScalarModel::of(matrix_product(a.cell, b.cell))),
            ),
            (ConstantModel::Scalar(a), ConstantModel::Tensor(b)) => Ok(
                ConstantModel::Tensor(tensor_times_scalar(b, a.cell)),
            ),
            (ConstantModel::Scalar(a), ConstantModel::Matrix(b)) => Ok(
                ConstantModel::Matrix(matrix_times_scalar(b, a.cell)),
            ),
            (ConstantModel::Tensor(a), ConstantModel::Scalar(b)) => Ok(
                ConstantModel::Tensor(tensor_times_scalar(a, b.cell)),
            ),
            (ConstantModel::Matrix(a), ConstantModel::Scalar(b)) => Ok(
                ConstantModel::Matrix(matrix_times_scalar(a, b.cell)),
            ),
            (ConstantModel::Tensor(a), ConstantModel::Tensor(b)) => if tensor_shape(a)
                == tensor_shape(b) {
                Ok(ConstantModel::Tensor(tensor_product(a, b)))
            } else {
                Err(AlgebraError::ShapeMismatch)
            },
            (ConstantModel::Matrix(a), ConstantModel::Matrix(b)) => if same_matrix_shape(a, b) {
                Ok(ConstantModel::Matrix(matrix_product(a, b)))
            } else {
                Err(AlgebraError::ShapeMismatch)
            },
            _ => Err(AlgebraError::VariantMismatch),
        }
    }

    /// The quotient cell by cell, with the cases of [`ConstantModel::add`].
    pub open spec fn div(self, rhs: ConstantModel) -> Result<ConstantModel, AlgebraError> {
        match (self, rhs) {
            (ConstantModel::Scalar(a), ConstantModel::Scalar(b)) => Ok(
                ConstantModel::Scalar(ScalarModel::of(matrix_quotient(a.cell, b.cell))),
            ),
            (ConstantModel::Scalar(a), ConstantModel::Tensor(b)) => Ok(
                ConstantModel::Tensor(scalar_by_tensor(a.cell, b)),
            ),
            (ConstantModel::Scalar(a), ConstantModel::Matrix(b)) => Ok(
                ConstantModel::Matrix(scalar_by_matrix(a.cell, b)),
            ),
            (ConstantModel::Tensor(a), ConstantModel::Scalar(b)) => Ok(
                ConstantModel::Tensor(tensor_over_scalar(a, b.cell)),
            ),
            (ConstantModel::Matrix(a), ConstantModel::Scalar(b)) => Ok(
                ConstantModel::Matrix(matrix_over_scalar(a, b.cell)),
            ),
            (ConstantModel::Tensor(a), ConstantModel::Tensor(b)) => if tensor_shape(a)
                == tensor_shape(b) {
                Ok(ConstantModel::Tensor(tensor_quotient(a, b)))
            } else {
                Err(AlgebraError::ShapeMismatch)
            },
            (ConstantModel::Matrix(a), ConstantModel::Matrix(b)) => if same_matrix_shape(a, b) {
                Ok(ConstantModel::Matrix(matrix_quotient(a, b)))
            } else {
                Err(AlgebraError::ShapeMismatch)
            },
            _ => Err(AlgebraError::VariantMismatch),
        }
    }

    /// The negation.
    pub open spec fn neg(self) -> ConstantModel {
        match self {
            ConstantModel::Scalar(a) => ConstantModel::Scalar(
                ScalarModel::of(matrix_negation(a.cell)),
            ),
            ConstantModel::Tensor(a) => ConstantModel::Tensor(tensor_negation(a)),
            ConstantModel::Matrix(a) => ConstantModel::Matrix(matrix_negation(a)),
        }
    }
}

/// The size of every axis of a tensor.
pub fn tensor_dimensions(t: &TensorValue) -> (r: Vec<usize>)
    ensures
        r@ == tensor_shape(*t),
{
    let rank = tensor_rank(t);
    let mut out: Vec<usize> = Vec::new();
    let mut k: usize = 0;
    while k < rank
        invariant
            rank == tensor_shape(*t).len(),
            k <= rank,
            out@ == tensor_shape(*t).subrange(0, k as int),
        decreases rank - k,
    {
        out.push(tensor_size(t, k));
        proof {
            assert(out@ =~= tensor_shape(*t).subrange(0, k + 1));
        }
        k += 1;
    }
    proof {
        assert(tensor_shape(*t).subrange(0, rank as int) =~= tensor_shape(*t));
    }
    out
}

/// Whether two concrete shapes are the same.
pub fn same_dimensions(a: &Vec<usize>, b: &Vec<usize>) -> (r: bool)
    ensures
        r == (a@ == b@),
{
    if a.len() != b.len() {
        return false;
    }
    let mut k: usize = 0;
    while k < a.len()
        invariant
            a.len() == b.len(),
            k <= a.len(),
            forall|j: int| 0 <= j < k ==> a@[j] == b@[j],
        decreases a.len() - k,
    {
        if a[k] != b[k] {
            return false;
        }
        k += 1;
    }
    proof {
        assert(a@ =~= b@);
    }
    true
}

fn same_tensor_shape(a: &TensorValue, b: &TensorValue) -> (r: bool)
    ensures
        r == (tensor_shape(*a) == tensor_shape(*b)),
{
    let da = tensor_dimensions(a);
    let db = tensor_dimensions(b);
    same_dimensions(&da, &db)
}

fn same_shape_matrices(a: &MatrixValue, b: &MatrixValue) -> (r: bool)
    ensures
        r == same_matrix_shape(*a, *b),
{
    matrix_row_count(a) == matrix_row_count(b) && matrix_col_count(a) == matrix_col_count(b)
}

impl ConstantValue {
    /// The concrete size of every axis.
    pub fn sizes(&self) -> (r: Vec<usize>)
        ensures
            r@ == self@.dimensions(),
    {
        match self {
            ConstantValue::Scalar(_) => Vec::new(),
            ConstantValue::Tensor(t) => tensor_dimensions(t.value()),
            ConstantValue::Matrix(m) => {
                let m = m.value();
                let mut out: Vec<usize> = Vec::new();
                out.push(matrix_row_count(m));
                out.push(matrix_col_count(m));
                proof {
                    assert(out@ =~= seq![matrix_rows(*m), matrix_cols(*m)]);
                }
                out
            },
        }
    }

    /// The class of every axis.
    pub fn size_classes(&self) -> (r: Vec<Size>)
        ensures
            r@ == self@.sizes(),
    {
        match self {
            ConstantValue::Scalar(_) => Vec::new(),
            ConstantValue::Tensor(t) => {
                let dims = tensor_dimensions(t.value());
                classify_shape(&dims)
            },
            ConstantValue::Matrix(m) => {
                let m = m.value();
                let mut out: Vec<Size> = Vec::new();
                out.push(Size::of(matrix_row_count(m)));
                out.push(Size::of(matrix_col_count(m)));
                proof {
                    assert(out@ =~= seq![
                        size_class(matrix_rows(*m)),
                        size_class(matrix_cols(*m)),
                    ]);
                }
                out
            },
        }
    }

    pub fn duplicate(&self) -> (r: ConstantValue)
        ensures
            r@ == self@,
    {
        match self {
            ConstantValue::Scalar(s) => ConstantValue::Scalar(s.duplicate()),
            ConstantValue::Tensor(t) => ConstantValue::Tensor(t.duplicate()),
            ConstantValue::Matrix(m) => ConstantValue::Matrix(m.duplicate()),
        }
    }

    pub fn is_zero_scalar(&self) -> (r: bool)
        ensures
            r == self@.is_zero_scalar(),
    {
        match self {
            ConstantValue::Scalar(s) => s.is_zero(),
            _ => false,
        }
    }

    pub fn is_one_scalar(&self) -> (r: bool)
        ensures
            r == self@.is_one_scalar(),
    {
        match self {
            ConstantValue::Scalar(s) => s.is_one(),
            _ => false,
        }
    }

    /// The scalar of a `Scalar` constant.
    pub fn into_scalar(&self) -> (r: Scalar)
        requires
            self is Scalar,
        ensures
            ConstantModel::Scalar(r@) == self@,
    {
        match self {
            ConstantValue::Scalar(s) => s.duplicate(),
            _ => Scalar::zero(),
        }
    }

    /// The tensor of a `Tensor` constant.
    pub fn into_tensor(self) -> (r: NumericTensor)
        requires
            self is Tensor,
        ensures
            ConstantModel::Tensor(r@) == self@,
    {
        match self {
            ConstantValue::Tensor(t) => t,
            ConstantValue::Matrix(_) => vstd::pervasive::unreached(),
            ConstantValue::Scalar(_) => vstd::pervasive::unreached(),
        }
    }

    /// The tensor of a `Tensor` constant, borrowed.
    pub fn into_tensor_ref(&self) -> (r: &NumericTensor)
        requires
            self is Tensor,
        ensures
            ConstantModel::Tensor(r@) == self@,
    {
        match self {
            ConstantValue::Tensor(t) => t,
            ConstantValue::Matrix(_) => vstd::pervasive::unreached(),
            ConstantValue::Scalar(_) => vstd::pervasive::unreached(),
        }
    }

    /// The matrix of a `Matrix` constant.
    pub fn into_matrix(self) -> (r: NumericMatrix)
        requires
            self is Matrix,
        ensures
            ConstantModel::Matrix(r@) == self@,
    {
        match self {
            ConstantValue::Matrix(m) => m,
            ConstantValue::Tensor(_) => vstd::pervasive::unreached(),
            ConstantValue::Scalar(_) => vstd::pervasive::unreached(),
        }
    }

    /// The matrix of a `Matrix` constant, borrowed.
    pub fn into_matrix_ref(&self) -> (r: &NumericMatrix)
        requires
            self is Matrix,
        ensures
            ConstantModel::Matrix(r@) == self@,
    {
        match self {
            ConstantValue::Matrix(m) => m,
            ConstantValue::Tensor(_) => vstd::pervasive::unreached(),
            ConstantValue::Scalar(_) => vstd::pervasive::unreached(),
        }
    }

    /// The sum of two constants.
    pub fn add(&self, rhs: &ConstantValue) -> (r: Result<ConstantValue, AlgebraError>)
        ensures
            r is Ok ==> self@.add(rhs@) == Ok::<ConstantModel, AlgebraError>(r->Ok_0@),
            r is Err ==> self@.add(rhs@) == Err::<ConstantModel, AlgebraError>(r->Err_0),
    {
        match (self, rhs) {
            (ConstantValue::Scalar(a), ConstantValue::Scalar(b)) => {
                let cell = matrix_add(a.cell(), b.cell());
                Ok(ConstantValue::Scalar(Scalar::classified(cell)))
            },
            (ConstantValue::Scalar(a), ConstantValue::Tensor(b)) => Ok(
                ConstantValue::Tensor(NumericTensor::trusted(tensor_add_scalar(b.value(), a.cell()))),
            ),
            (ConstantValue::Scalar(a), ConstantValue::Matrix(b)) => Ok(
                ConstantValue::Matrix(NumericMatrix::trusted(matrix_add_scalar(b.value(), a.cell()))),
            ),
            (ConstantValue::Tensor(a), ConstantValue::Scalar(b)) => Ok(
                ConstantValue::Tensor(NumericTensor::trusted(tensor_add_scalar(a.value(), b.cell()))),
            ),
            (ConstantValue::Matrix(a), ConstantValue::Scalar(b)) => Ok(
                ConstantValue::Matrix(NumericMatrix::trusted(matrix_add_scalar(a.value(), b.cell()))),
            ),
            (ConstantValue::Tensor(a), ConstantValue::Tensor(b)) => {
                if same_tensor_shape(a.value(), b.value()) {
                    Ok(ConstantValue::Tensor(NumericTensor::trusted(tensor_add(a.value(), b.value()))))
                } else {
                    Err(AlgebraError::ShapeMismatch)
                }
            },
            (ConstantValue::Matrix(a), ConstantValue::Matrix(b)) => {
                if same_shape_matrices(a.value(), b.value()) {
                    Ok(ConstantValue::Matrix(NumericMatrix::trusted(matrix_add(a.value(), b.value()))))
                } else {
                    Err(AlgebraError::ShapeMismatch)
                }
            },
            _ => Err(AlgebraError::VariantMismatch),
        }
    }

    /// The difference of two constants.
    pub fn sub(&self, rhs: &ConstantValue) -> (r: Result<ConstantValue, AlgebraError>)
        ensures
            r is Ok ==> self@.sub(rhs@) == Ok::<ConstantModel, AlgebraError>(r->Ok_0@),
            r is Err ==> self@.sub(rhs@) == Err::<ConstantModel, AlgebraError>(r->Err_0),
    {
        match (self, rhs) {
            (ConstantValue::Scalar(a), ConstantValue::Scalar(b)) => {
                let cell = matrix_sub(a.cell(), b.cell());
                Ok(ConstantValue::Scalar(Scalar::classified(cell)))
            },
            (ConstantValue::Scalar(a), ConstantValue::Tensor(b)) => Ok(
                ConstantValue::Tensor(NumericTensor::trusted(tensor_neg(&tensor_sub_scalar(b.value(), a.cell())))),
            ),
            (ConstantValue::Scalar(a), ConstantValue::Matrix(b)) => Ok(
                ConstantValue::Matrix(NumericMatrix::trusted(matrix_sub_scalar(b.value(), a.cell()))),
            ),
            (ConstantValue::Tensor(a), ConstantValue::Scalar(b)) => Ok(
                ConstantValue::Tensor(NumericTensor::trusted(tensor_sub_scalar(a.value(), b.cell()))),
            ),
            (ConstantValue::Matrix(a), ConstantValue::Scalar(b)) => Ok(
                ConstantValue::Matrix(NumericMatrix::trusted(scalar_sub_matrix(b.cell(), a.value()))),
            ),
            (ConstantValue::Tensor(a), ConstantValue::Tensor(b)) => {
                if same_tensor_shape(a.value(), b.value()) {
                    Ok(ConstantValue::Tensor(NumericTensor::trusted(tensor_sub(a.value(), b.value()))))
                } else {
                    Err(AlgebraError::ShapeMismatch)
                }
            },
            (ConstantValue::Matrix(a), ConstantValue::Matrix(b)) => {
                if same_shape_matrices(a.value(), b.value()) {
                    Ok(ConstantValue::Matrix(NumericMatrix::trusted(matrix_sub(a.value(), b.value()))))
                } else {
                    Err(AlgebraError::ShapeMismatch)
                }
            },
            _ => Err(AlgebraError::VariantMismatch),
        }
    }

    /// The product of two constants, cell by cell.
    pub fn mul(&self, rhs: &ConstantValue) -> (r: Result<ConstantValue, AlgebraError>)
        ensures
            r is Ok ==> self@.mul(rhs@) == Ok::<ConstantModel, AlgebraError>(r->Ok_0@),
            r is Err ==> self@.mul(rhs@) == Err::<ConstantModel, AlgebraError>(r->Err_0),
    {
        match (self, rhs) {
            (ConstantValue::Scalar(a), ConstantValue::Scalar(b)) => {
                let cell = matrix_mul(a.cell(), b.cell());
                Ok(ConstantValue::Scalar(Scalar::classified(cell)))
            },
            (ConstantValue::Scalar(a), ConstantValue::Tensor(b)) => Ok(
                ConstantValue::Tensor(NumericTensor::trusted(tensor_mul_scalar(b.value(), a.cell()))),
            ),
            (ConstantValue::Scalar(a), ConstantValue::Matrix(b)) => Ok(
                ConstantValue::Matrix(NumericMatrix::trusted(matrix_mul_scalar(b.value(), a.cell()))),
            ),
            (ConstantValue::Tensor(a), ConstantValue::Scalar(b)) => Ok(
                ConstantValue::Tensor(NumericTensor::trusted(tensor_mul_scalar(a.value(), b.cell()))),
            ),
            (ConstantValue::Matrix(a), ConstantValue::Scalar(b)) => Ok(
                ConstantValue::Matrix(NumericMatrix::trusted(matrix_mul_scalar(a.value(), b.cell()))),
            ),
            (ConstantValue::Tensor(a), ConstantValue::Tensor(b)) => {
                if same_tensor_shape(a.value(), b.value()) {
                    Ok(ConstantValue::Tensor(NumericTensor::trusted(tensor_mul(a.value(), b.value()))))
                } else {
                    Err(AlgebraError::ShapeMismatch)
                }
            },
            (ConstantValue::Matrix(a), ConstantValue::Matrix(b)) => {
                if same_shape_matrices(a.value(), b.value()) {
                    Ok(ConstantValue::Matrix(NumericMatrix::trusted(matrix_mul(a.value(), b.value()))))
                } else {
                    Err(AlgebraError::ShapeMismatch)
                }
            },
            _ => Err(AlgebraError::VariantMismatch),
        }
    }

    /// The quotient of two constants, cell by cell.
    pub fn div(&self, rhs: &ConstantValue) -> (r: Result<ConstantValue, AlgebraError>)
        ensures
            r is Ok ==> self@.div(rhs@) == Ok::<ConstantModel, AlgebraError>(r->Ok_0@),
            r is Err ==> self@.div(rhs@) == Err::<ConstantModel, AlgebraError>(r->Err_0),
    {
        match (self, rhs) {
            (ConstantValue::Scalar(a), ConstantValue::Scalar(b)) => {
                let cell = matrix_div(a.cell(), b.cell());
                Ok(ConstantValue::Scalar(Scalar::classified(cell)))
            },
            (ConstantValue::Scalar(a), ConstantValue::Tensor(b)) => Ok(
                ConstantValue::Tensor(NumericTensor::trusted(divide_scalar_by_tensor(a.cell(), b.value()))),
            ),
            (ConstantValue::Scalar(a), ConstantValue::Matrix(b)) => Ok(
                ConstantValue::Matrix(NumericMatrix::trusted(divide_scalar_by_matrix(a.cell(), b.value()))),
            ),
            (ConstantValue::Tensor(a), ConstantValue::Scalar(b)) => Ok(
                ConstantValue::Tensor(NumericTensor::trusted(tensor_div_scalar(a.value(), b.cell()))),
            ),
            (ConstantValue::Matrix(a), ConstantValue::Scalar(b)) => Ok(
                ConstantValue::Matrix(NumericMatrix::trusted(matrix_div_scalar(a.value(), b.cell()))),
            ),
            (ConstantValue::Tensor(a), ConstantValue::Tensor(b)) => {
                if same_tensor_shape(a.value(), b.value()) {
                    Ok(ConstantValue::Tensor(NumericTensor::trusted(tensor_div(a.value(), b.value()))))
                } else {
                    Err(AlgebraError::ShapeMismatch)
                }
            },
            (ConstantValue::Matrix(a), ConstantValue::Matrix(b)) => {
                if same_shape_matrices(a.value(), b.value()) {
                    Ok(ConstantValue::Matrix(NumericMatrix::trusted(matrix_div(a.value(), b.value()))))
                } else {
                    Err(AlgebraError::ShapeMismatch)
                }
            },
            _ => Err(AlgebraError::VariantMismatch),
        }
    }

    /// The negation of a constant.
    pub fn neg(&self) -> (r: ConstantValue)
        ensures
            r@ == self@.neg(),
    {
        match self {
            ConstantValue::Scalar(a) => {
                let cell = matrix_neg(a.cell());
                ConstantValue::Scalar(Scalar::classified(cell))
            },
            ConstantValue::Tensor(a) => ConstantValue::Tensor(NumericTensor::trusted(tensor_neg(a.value()))),
            ConstantValue::Matrix(a) => ConstantValue::Matrix(NumericMatrix::trusted(matrix_neg(a.value()))),
        }
    }
}

} // verus!
