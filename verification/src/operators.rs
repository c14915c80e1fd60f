//! The simplifying constructors of scalar-valued and matrix-valued trees.
//!
//! Every rule is applied when a node is built: two constants are folded into
//! one, the identities of sum and product are dropped, a product with zero is
//! zero, and a double negation cancels.

use crate::constant_value::NumericMatrix;
use crate::constant_value::ConstantModel;
use crate::constant_value::ConstantValue;
use crate::constant_value::Scalar;
use crate::constant_value::ScalarModel;
use crate::contraction::inner_product;
use crate::contraction::pairs_view;
use crate::size::Size;
use crate::error::AlgebraError;
use crate::expression::expr_outcome;
use crate::expression::matrix_outcome;
use crate::expression::ExprModel;
use crate::expression::Expression;
use crate::expression::MatrixExpression;
use crate::expression::MatrixModel;
use crate::expression::Ratio;
use crate::expression::TensorExpression;
use crate::expression::TensorModel;
use crate::expression::TransModel;
use crate::expression::TranscendentalExpression;
use crate::provider::matrix_col_count;
use crate::provider::matrix_row_count;
use crate::provider::matrix_rows;
use crate::provider::same_matrix_shape;
use crate::provider::MatrixValue;
use crate::provider::matrix_cols;
use crate::provider::matrix_transpose;
use crate::provider::matrix_transposed;
use crate::tensor_ops::mul_scalar;
use vstd::prelude::*;

verus! {

impl Ratio {
    /// Whether the ratio is one.
    pub open spec fn is_unit(self) -> bool {
        self.den != 0 && self.num == self.den
    }

    /// Whether the ratio is zero.
    pub open spec fn is_null(self) -> bool {
        self.den != 0 && self.num == 0
    }

    /// The ratio less one, where its numerator is within the machine's
    /// integers.
    pub open spec fn minus_one(self) -> Option<Ratio> {
        if self.num - self.den >= i64::MIN {
            Some(Ratio { num: (self.num - self.den) as i64, den: self.den })
        } else {
            None
        }
    }

    /// Whether the ratio is one.
    pub fn unit(&self) -> (r: bool)
        ensures
            r == self.is_unit(),
    {
        self.den != 0 && self.num >= 0 && self.num as u64 == self.den
    }

    /// Whether the ratio is zero.
    pub fn null(&self) -> (r: bool)
        ensures
            r == self.is_null(),
    {
        self.den != 0 && self.num == 0
    }

    /// The ratio less one.
    pub fn lessened(&self) -> (r: Option<Ratio>)
        ensures
            r == self.minus_one(),
    {
        if self.den > 0x7fff_ffff_ffff_ffff {
            if self.num >= 0 && self.den == 0x8000_0000_0000_0000 && self.num == 0 {
                return Some(Ratio { num: i64::MIN, den: self.den });
            }
            if self.num >= 0 && self.den - 0x8000_0000_0000_0000 <= self.num as u64 {
                let low: u64 = self.num as u64 - (self.den - 0x8000_0000_0000_0000);
                return Some(Ratio { num: i64::MIN + low as i64, den: self.den });
            }
            return None;
        }
        let den = self.den as i64;
        if self.num >= i64::MIN + den {
            Some(Ratio { num: self.num - den, den: self.den })
        } else {
            None
        }
    }
}

impl ExprModel {
    /// The scalar constant zero.
    pub open spec fn zero() -> ExprModel {
        ExprModel::Constant(ConstantModel::Scalar(ScalarModel::zero()))
    }

    /// The scalar constant one.
    pub open spec fn one() -> ExprModel {
        ExprModel::Constant(ConstantModel::Scalar(ScalarModel::one()))
    }

    /// The zero tensor, as a scalar-valued tree.
    pub open spec fn zero_tensor() -> ExprModel {
        ExprModel::Tensor(Box::new(TensorModel::Zero))
    }

    pub open spec fn is_zero_scalar(self) -> bool {
        self matches ExprModel::Constant(c) && c.is_zero_scalar()
    }

    pub open spec fn is_zero_tensor(self) -> bool {
        self matches ExprModel::Tensor(t) && *t is Zero
    }

    /// Whether the tree is the scalar zero or the zero tensor.
    pub open spec fn is_zero(self) -> bool {
        self.is_zero_scalar() || self.is_zero_tensor()
    }

    /// Whether the tree is the scalar one.
    pub open spec fn is_one(self) -> bool {
        self matches ExprModel::Constant(c) && c.is_one_scalar()
    }

    /// The sum: the scalar zero is dropped, two constants are added, and two
    /// tensor-valued operands are added as tensors.
    pub open spec fn add(self, rhs: ExprModel) -> Result<ExprModel, AlgebraError> {
        if rhs.is_zero_scalar() {
            Ok(self)
        } else if self.is_zero_scalar() {
            Ok(rhs)
        } else {
            match (self, rhs) {
                (ExprModel::Constant(a), ExprModel::Constant(b)) => match a.add(b) {
                    Ok(c) => Ok(ExprModel::Constant(c)),
                    Err(e) => Err(e),
                },
                (ExprModel::Tensor(a), ExprModel::Tensor(b)) => match a.add(*b) {
                    Ok(t) => Ok(ExprModel::Tensor(Box::new(t))),
                    Err(e) => Err(e),
                },
                _ => Ok(ExprModel::Add(Box::new(self), Box::new(rhs))),
            }
        }
    }

    /// The difference: subtracting the scalar zero changes nothing,
    /// subtracting from it negates; two constants are subtracted, and two
    /// tensor-valued operands are subtracted as tensors.
    pub open spec fn sub(self, rhs: ExprModel) -> Result<ExprModel, AlgebraError> {
        if rhs.is_zero_scalar() {
            Ok(self)
        } else if self.is_zero_scalar() {
            Ok(rhs.neg())
        } else {
            match (self, rhs) {
                (ExprModel::Constant(a), ExprModel::Constant(b)) => match a.sub(b) {
                    Ok(c) => Ok(ExprModel::Constant(c)),
                    Err(e) => Err(e),
                },
                (ExprModel::Tensor(a), ExprModel::Tensor(b)) => match a.sub(*b) {
                    Ok(t) => Ok(ExprModel::Tensor(Box::new(t))),
                    Err(e) => Err(e),
                },
                _ => Ok(ExprModel::Sub(Box::new(self), Box::new(rhs))),
            }
        }
    }

    /// The product: a zero operand makes it that zero, the factor one is
    /// dropped, two constants are multiplied.  Two tensor-valued operands
    /// are contracted over no rank, and a tensor-valued operand is scaled by
    /// the other one.
    pub open spec fn mul(self, rhs: ExprModel) -> Result<ExprModel, AlgebraError> {
        if self.is_zero() {
            Ok(self)
        } else if rhs.is_zero() {
            Ok(rhs)
        } else if self.is_one() {
            Ok(rhs)
        } else if rhs.is_one() {
            Ok(self)
        } else {
            match (self, rhs) {
                (ExprModel::Constant(a), ExprModel::Constant(b)) => match a.mul(b) {
                    Ok(c) => Ok(ExprModel::Constant(c)),
                    Err(e) => Err(e),
                },
                (ExprModel::Tensor(t), ExprModel::Tensor(u)) => match inner_product(
                    *t,
                    *u,
                    Seq::empty(),
                ) {
                    Ok(p) => Ok(ExprModel::Tensor(Box::new(p))),
                    Err(e) => Err(e),
                },
                (ExprModel::Tensor(t), factor) => match t.scale(factor, true) {
                    Ok(p) => Ok(ExprModel::Tensor(Box::new(p))),
                    Err(e) => Err(e),
                },
                (factor, ExprModel::Tensor(t)) => match t.scale(factor, false) {
                    Ok(p) => Ok(ExprModel::Tensor(Box::new(p))),
                    Err(e) => Err(e),
                },
                _ => Ok(ExprModel::Mul(Box::new(self), Box::new(rhs))),
            }
        }
    }

    /// The quotient: the divisor one is dropped, two constants are divided.
    pub open spec fn div(self, rhs: ExprModel) -> Result<ExprModel, AlgebraError> {
        if rhs.is_one() {
            Ok(self)
        } else {
            match (self, rhs) {
                (ExprModel::Constant(a), ExprModel::Constant(b)) => match a.div(b) {
                    Ok(c) => Ok(ExprModel::Constant(c)),
                    Err(e) => Err(e),
                },
                _ => Ok(ExprModel::Div(Box::new(self), Box::new(rhs))),
            }
        }
    }

    /// The negation: a constant is negated, a double negation cancels; any
    /// other tree stands under a negation node.
    pub open spec fn neg(self) -> ExprModel {
        match self {
            ExprModel::Constant(c) => ExprModel::Constant(c.neg()),
            ExprModel::Neg(v) => *v,
            _ => ExprModel::Neg(Box::new(self)),
        }
    }

    /// The power with an exact exponent: the exponent one is dropped, the
    /// exponent zero gives one.
    pub open spec fn powr(self, exponent: Ratio) -> ExprModel {
        if exponent.is_unit() {
            self
        } else if exponent.is_null() {
            ExprModel::one()
        } else {
            ExprModel::Pow(Box::new(self), exponent)
        }
    }

    /// The tree as a tensor-valued one, where it is tensor valued or matrix
    /// valued.
    pub open spec fn as_tensor(self) -> Option<TensorModel> {
        match self {
            ExprModel::Tensor(t) => Some(*t),
            ExprModel::Matrix(m) => Some(TensorModel::Mat(m)),
            _ => None,
        }
    }

    /// The tree as a matrix-valued one, where it is tensor valued or matrix
    /// valued.
    pub open spec fn as_matrix(self) -> Option<MatrixModel> {
        match self {
            ExprModel::Matrix(m) => Some(*m),
            ExprModel::Tensor(t) => Some(MatrixModel::Mat(t)),
            _ => None,
        }
    }

    /// The contraction of two tensor-valued or matrix-valued trees over
    /// pairs of ranks.
    pub open spec fn dot(self, rhs: ExprModel, pairs: Seq<(usize, usize)>) -> Result<
        ExprModel,
        AlgebraError,
    > {
        match (self.as_tensor(), rhs.as_tensor()) {
            (Some(a), Some(b)) => match inner_product(a, b, pairs) {
                Ok(t) => Ok(ExprModel::Tensor(Box::new(t))),
                Err(e) => Err(e),
            },
            _ => Err(AlgebraError::VariantMismatch),
        }
    }

    /// The transpose of a tensor-valued or matrix-valued tree.
    pub open spec fn t(self) -> Result<ExprModel, AlgebraError> {
        match self.as_matrix() {
            Some(m) => Ok(ExprModel::Matrix(Box::new(m.t()))),
            None => Err(AlgebraError::VariantMismatch),
        }
    }

    /// The inverse of a tensor-valued or matrix-valued tree.
    pub open spec fn inv(self) -> Result<ExprModel, AlgebraError> {
        match self.as_matrix() {
            Some(m) => match m.inv() {
                Ok(v) => Ok(ExprModel::Matrix(Box::new(v))),
                Err(e) => Err(e),
            },
            None => Err(AlgebraError::VariantMismatch),
        }
    }

    /// The determinant of a tensor-valued or matrix-valued tree.
    pub open spec fn det(self) -> Result<ExprModel, AlgebraError> {
        match self.as_matrix() {
            Some(m) => Ok(ExprModel::Matrix(Box::new(m.det()))),
            None => Err(AlgebraError::VariantMismatch),
        }
    }

    pub open spec fn abs(self) -> ExprModel {
        ExprModel::Transcendental(Box::new(TransModel::Abs(Box::new(self))))
    }

    pub open spec fn pow(self, exponent: ExprModel) -> ExprModel {
        ExprModel::Transcendental(Box::new(TransModel::Pow(Box::new(self), Box::new(exponent))))
    }

    pub open spec fn exp(self) -> ExprModel {
        ExprModel::Transcendental(Box::new(TransModel::Exp(Box::new(self))))
    }

    /// The logarithm of `antilogarithm` to the base `self`.
    pub open spec fn log(self, antilogarithm: ExprModel) -> ExprModel {
        ExprModel::Transcendental(
            Box::new(TransModel::Log(Box::new(self), Box::new(antilogarithm))),
        )
    }

    pub open spec fn ln(self) -> ExprModel {
        ExprModel::Transcendental(Box::new(TransModel::Ln(Box::new(self))))
    }

    pub open spec fn sin(self) -> ExprModel {
        ExprModel::Transcendental(Box::new(TransModel::Sin(Box::new(self))))
    }

    pub open spec fn cos(self) -> ExprModel {
        ExprModel::Transcendental(Box::new(TransModel::Cos(Box::new(self))))
    }

    pub open spec fn tan(self) -> ExprModel {
        ExprModel::Transcendental(Box::new(TransModel::Tan(Box::new(self))))
    }
}

impl MatrixModel {
    /// The inverse: the inverse of an inverse is the matrix itself; a
    /// determinant is no matrix; a numeric matrix that is not square has no
    /// inverse.
    pub open spec fn inv(self) -> Result<MatrixModel, AlgebraError> {
        match self {
            MatrixModel::Inverse(v) => Ok(*v),
            MatrixModel::Determinant(_) => Err(AlgebraError::VariantMismatch),
            MatrixModel::Constant(c) => if matrix_rows(c) == matrix_cols(c) {
                Ok(MatrixModel::Inverse(Box::new(self)))
            } else {
                Err(AlgebraError::ShapeMismatch)
            },
            _ => Ok(MatrixModel::Inverse(Box::new(self))),
        }
    }

    /// The inverse, with the numeric inverse put in place of a numeric
    /// matrix: `inverse` is what the provider made of the matrix, `None`
    /// where it found no inverse.  A numeric matrix needs to be square, and
    /// its inverse to have its shape.
    pub open spec fn inv_with(self, inverse: Option<MatrixValue>) -> Result<
        MatrixModel,
        AlgebraError,
    > {
        match self {
            MatrixModel::Constant(c) => match inverse {
                Some(v) => if matrix_rows(c) == matrix_cols(c) && same_matrix_shape(v, c) {
                    Ok(MatrixModel::Constant(v))
                } else {
                    Err(AlgebraError::ShapeMismatch)
                },
                None => Err(AlgebraError::ShapeMismatch),
            },
            _ => self.inv(),
        }
    }

    /// The transpose: the transpose of a transpose is the matrix itself, a
    /// constant with a column is transposed by the provider.
    pub open spec fn t(self) -> MatrixModel {
        match self {
            MatrixModel::Transpose(v) => *v,
            MatrixModel::Constant(c) => if matrix_cols(c) > 0 {
                MatrixModel::Constant(matrix_transposed(c))
            } else {
                MatrixModel::Transpose(Box::new(self))
            },
            _ => MatrixModel::Transpose(Box::new(self)),
        }
    }

    /// The determinant.
    pub open spec fn det(self) -> MatrixModel {
        MatrixModel::Determinant(Box::new(self))
    }
}

/// A scalar-valued symbol without axes.
pub fn new_symbol(name: String) -> (r: Expression)
    ensures
        r@ == ExprModel::Symbol(name@, Seq::empty()),
{
    Expression::Symbol(name, Vec::new())
}

/// A tensor-valued symbol with the shape `sizes`.
pub fn new_variable_tensor(id: String, sizes: Vec<Size>) -> (r: Expression)
    ensures
        r@ == ExprModel::Tensor(Box::new(TensorModel::Symbol(id@, sizes@))),
{
    let symbol = TensorExpression::Symbol(id, sizes);
    proof {
        assert(symbol@ == TensorModel::Symbol(id@, sizes@));
    }
    Expression::Tensor(Box::new(symbol))
}

/// A scalar-valued symbol without axes.
pub fn new_variable(id: String) -> (r: Expression)
    ensures
        r@ == ExprModel::Symbol(id@, Seq::empty()),
{
    new_symbol(id)
}

impl Expression {
    /// The scalar constant zero.
    pub fn zero() -> (r: Expression)
        ensures
            r@ == ExprModel::zero(),
    {
        Expression::Constant(ConstantValue::Scalar(Scalar::zero()))
    }

    /// The scalar constant one.
    pub fn one() -> (r: Expression)
        ensures
            r@ == ExprModel::one(),
    {
        Expression::Constant(ConstantValue::Scalar(Scalar::one()))
    }

    /// The tree of a constant.
    pub fn from(v: ConstantValue) -> (r: Expression)
        ensures
            r@ == ExprModel::Constant(v@),
    {
        Expression::Constant(v)
    }

    pub fn is_zero_scalar(&self) -> (r: bool)
        ensures
            r == self@.is_zero_scalar(),
    {
        match self {
            Expression::Constant(c) => c.is_zero_scalar(),
            _ => false,
        }
    }

    pub fn is_zero_tensor(&self) -> (r: bool)
        ensures
            r == self@.is_zero_tensor(),
    {
        match self {
            Expression::Tensor(t) => t.is_zero(),
            _ => false,
        }
    }

    /// Whether the tree is the scalar zero or the zero tensor.
    pub fn is_zero(&self) -> (r: bool)
        ensures
            r == self@.is_zero(),
    {
        self.is_zero_scalar() || self.is_zero_tensor()
    }

    /// Whether the tree is the scalar one.
    pub fn is_one(&self) -> (r: bool)
        ensures
            r == self@.is_one(),
    {
        match self {
            Expression::Constant(c) => c.is_one_scalar(),
            _ => false,
        }
    }

    /// The sum of two trees.
    pub fn add(self, rhs: Expression) -> (r: Result<Expression, AlgebraError>)
        ensures
            expr_outcome(r) == self@.add(rhs@),
    {
        if rhs.is_zero_scalar() {
            return Ok(self);
        }
        if self.is_zero_scalar() {
            return Ok(rhs);
        }
        match (self, rhs) {
            (Expression::Constant(a), Expression::Constant(b)) => match a.add(&b) {
                Ok(c) => Ok(Expression::Constant(c)),
                Err(e) => Err(e),
            },
            (Expression::Tensor(a), Expression::Tensor(b)) => match (*a).add(*b) {
                Ok(t) => Ok(Expression::Tensor(Box::new(t))),
                Err(e) => Err(e),
            },
            (l, r) => Ok(Expression::Add(Box::new(l), Box::new(r))),
        }
    }

    /// The difference of two trees.
    pub fn sub(self, rhs: Expression) -> (r: Result<Expression, AlgebraError>)
        ensures
            expr_outcome(r) == self@.sub(rhs@),
    {
        if rhs.is_zero_scalar() {
            return Ok(self);
        }
        if self.is_zero_scalar() {
            return Ok(rhs.neg());
        }
        match (self, rhs) {
            (Expression::Constant(a), Expression::Constant(b)) => match a.sub(&b) {
                Ok(c) => Ok(Expression::Constant(c)),
                Err(e) => Err(e),
            },
            (Expression::Tensor(a), Expression::Tensor(b)) => match (*a).sub(*b) {
                Ok(t) => Ok(Expression::Tensor(Box::new(t))),
                Err(e) => Err(e),
            },
            (l, r) => Ok(Expression::Sub(Box::new(l), Box::new(r))),
        }
    }

    /// The product of two trees.
    pub fn mul(self, rhs: Expression) -> (r: Result<Expression, AlgebraError>)
        ensures
            expr_outcome(r) == self@.mul(rhs@),
    {
        if self.is_zero() {
            return Ok(self);
        }
        if rhs.is_zero() {
            return Ok(rhs);
        }
        if self.is_one() {
            return Ok(rhs);
        }
        if rhs.is_one() {
            return Ok(self);
        }
        match (self, rhs) {
            (Expression::Constant(a), Expression::Constant(b)) => match a.mul(&b) {
                Ok(c) => Ok(Expression::Constant(c)),
                Err(e) => Err(e),
            },
            (Expression::Tensor(t), Expression::Tensor(u)) => {
                let none: Vec<(usize, usize)> = Vec::new();
                proof {
                    assert(none@ =~= Seq::<(usize, usize)>::empty());
                }
                match (*t).inner_prod_pairs(*u, &none) {
                    Ok(p) => Ok(Expression::Tensor(Box::new(p))),
                    Err(e) => Err(e),
                }
            },
            (Expression::Tensor(t), factor) => match mul_scalar(factor, *t, true) {
                Ok(p) => Ok(Expression::Tensor(Box::new(p))),
                Err(e) => Err(e),
            },
            (factor, Expression::Tensor(t)) => match mul_scalar(factor, *t, false) {
                Ok(p) => Ok(Expression::Tensor(Box::new(p))),
                Err(e) => Err(e),
            },
            (l, r) => Ok(Expression::Mul(Box::new(l), Box::new(r))),
        }
    }

    /// The quotient of two trees.
    pub fn div(self, rhs: Expression) -> (r: Result<Expression, AlgebraError>)
        ensures
            expr_outcome(r) == self@.div(rhs@),
    {
        if rhs.is_one() {
            return Ok(self);
        }
        match (self, rhs) {
            (Expression::Constant(a), Expression::Constant(b)) => match a.div(&b) {
                Ok(c) => Ok(Expression::Constant(c)),
                Err(e) => Err(e),
            },
            (l, r) => Ok(Expression::Div(Box::new(l), Box::new(r))),
        }
    }

    /// The negation of a tree.
    pub fn neg(self) -> (r: Expression)
        ensures
            r@ == self@.neg(),
    {
        match self {
            Expression::Constant(c) => Expression::Constant(c.neg()),
            Expression::Neg(v) => *v,
            other => Expression::Neg(Box::new(other)),
        }
    }

    /// The power of a tree with an exact exponent.
    pub fn powr(self, exponent: Ratio) -> (r: Expression)
        ensures
            r@ == self@.powr(exponent),
    {
        if exponent.unit() {
            self
        } else if exponent.null() {
            Expression::one()
        } else {
            Expression::Pow(Box::new(self), exponent)
        }
    }

    /// The tree as a tensor-valued one.
    pub fn into_tensor(self) -> (r: Option<TensorExpression>)
        ensures
            match r {
                Some(t) => self@.as_tensor() == Some(t@),
                None => self@.as_tensor() is None,
            },
    {
        match self {
            Expression::Tensor(t) => Some(*t),
            Expression::Matrix(m) => Some(TensorExpression::Mat(m)),
            _ => None,
        }
    }

    /// The tree as a matrix-valued one.
    pub fn into_matrix(self) -> (r: Option<MatrixExpression>)
        ensures
            match r {
                Some(m) => self@.as_matrix() == Some(m@),
                None => self@.as_matrix() is None,
            },
    {
        match self {
            Expression::Matrix(m) => Some(*m),
            Expression::Tensor(t) => Some(MatrixExpression::Mat(t)),
            _ => None,
        }
    }

    /// The contraction of two tensor-valued or matrix-valued trees over
    /// `rank_pairs`, each of which pairs a rank of `self` with one of `rhs`.
    pub fn dot(self, rhs: Expression, rank_pairs: &[[usize; 2]]) -> (r: Result<
        Expression,
        AlgebraError,
    >)
        ensures
            expr_outcome(r) == self@.dot(rhs@, pairs_view(rank_pairs)),
    {
        match (self.into_tensor(), rhs.into_tensor()) {
            (Some(a), Some(b)) => match a.inner_prod(b, rank_pairs) {
                Ok(t) => Ok(Expression::Tensor(Box::new(t))),
                Err(e) => Err(e),
            },
            _ => Err(AlgebraError::VariantMismatch),
        }
    }

    /// The transpose of a tensor-valued or matrix-valued tree.
    pub fn t(self) -> (r: Result<Expression, AlgebraError>)
        ensures
            expr_outcome(r) == self@.t(),
    {
        match self.into_matrix() {
            Some(m) => Ok(Expression::Matrix(Box::new(m.t()))),
            None => Err(AlgebraError::VariantMismatch),
        }
    }

    /// The inverse of a tensor-valued or matrix-valued tree.
    pub fn inv(self) -> (r: Result<Expression, AlgebraError>)
        ensures
            expr_outcome(r) == self@.inv(),
    {
        match self.into_matrix() {
            Some(m) => match m.inv() {
                Ok(v) => Ok(Expression::Matrix(Box::new(v))),
                Err(e) => Err(e),
            },
            None => Err(AlgebraError::VariantMismatch),
        }
    }

    /// The determinant of a tensor-valued or matrix-valued tree.
    pub fn det(self) -> (r: Result<Expression, AlgebraError>)
        ensures
            expr_outcome(r) == self@.det(),
    {
        match self.into_matrix() {
            Some(m) => Ok(Expression::Matrix(Box::new(m.det()))),
            None => Err(AlgebraError::VariantMismatch),
        }
    }

    /// The tree of a transcendental function.
    pub fn transcendental(t: TranscendentalExpression) -> (r: Expression)
        ensures
            r@ == ExprModel::Transcendental(Box::new(t@)),
    {
        Expression::Transcendental(Box::new(t))
    }

    /// The absolute value.
    pub fn abs(self) -> (r: Expression)
        ensures
            r@ == self@.abs(),
    {
        Expression::transcendental(TranscendentalExpression::Abs(Box::new(self)))
    }

    /// The power with any exponent.
    pub fn pow(self, exponent: Expression) -> (r: Expression)
        ensures
            r@ == self@.pow(exponent@),
    {
        Expression::transcendental(TranscendentalExpression::Pow(Box::new(self), Box::new(exponent)))
    }

    /// The exponential.
    pub fn exp(self) -> (r: Expression)
        ensures
            r@ == self@.exp(),
    {
        Expression::transcendental(TranscendentalExpression::Exp(Box::new(self)))
    }

    /// The logarithm of `antilogarithm` to the base `self`.
    pub fn log(self, antilogarithm: Expression) -> (r: Expression)
        ensures
            r@ == self@.log(antilogarithm@),
    {
        Expression::transcendental(
            TranscendentalExpression::Log(Box::new(self), Box::new(antilogarithm)),
        )
    }

    /// The natural logarithm.
    pub fn ln(self) -> (r: Expression)
        ensures
            r@ == self@.ln(),
    {
        Expression::transcendental(TranscendentalExpression::Ln(Box::new(self)))
    }

    /// The sine.
    pub fn sin(self) -> (r: Expression)
        ensures
            r@ == self@.sin(),
    {
        Expression::transcendental(TranscendentalExpression::Sin(Box::new(self)))
    }

    /// The cosine.
    pub fn cos(self) -> (r: Expression)
        ensures
            r@ == self@.cos(),
    {
        Expression::transcendental(TranscendentalExpression::Cos(Box::new(self)))
    }

    /// The tangent.
    pub fn tan(self) -> (r: Expression)
        ensures
            r@ == self@.tan(),
    {
        Expression::transcendental(TranscendentalExpression::Tan(Box::new(self)))
    }
}

impl MatrixExpression {
    /// The inverse of a matrix-valued tree.
    pub fn inv(self) -> (r: Result<MatrixExpression, AlgebraError>)
        ensures
            matrix_outcome(r) == self@.inv(),
    {
        match self {
            MatrixExpression::Inverse(v) => Ok(*v),
            MatrixExpression::Determinant(_) => Err(AlgebraError::VariantMismatch),
            MatrixExpression::Constant(c) => {
                if matrix_row_count(c.value()) == matrix_col_count(c.value()) {
                    Ok(MatrixExpression::Inverse(Box::new(MatrixExpression::Constant(c))))
                } else {
                    Err(AlgebraError::ShapeMismatch)
                }
            },
            other => Ok(MatrixExpression::Inverse(Box::new(other))),
        }
    }

    /// The inverse of a matrix-valued tree, with the numeric inverse put in
    /// place of a numeric matrix.
    pub fn inv_with(self, inverse: Option<NumericMatrix>) -> (r: Result<
        MatrixExpression,
        AlgebraError,
    >)
        ensures
            matrix_outcome(r) == self@.inv_with(
                match inverse {
                    Some(v) => Some(v@),
                    None => None,
                },
            ),
    {
        match self {
            MatrixExpression::Constant(c) => match inverse {
                Some(v) => {
                    let c = c.value();
                    if matrix_row_count(c) == matrix_col_count(c) && matrix_row_count(v.value())
                        == matrix_row_count(c) && matrix_col_count(v.value()) == matrix_col_count(
                        c,
                    ) {
                        Ok(MatrixExpression::Constant(v))
                    } else {
                        Err(AlgebraError::ShapeMismatch)
                    }
                },
                None => Err(AlgebraError::ShapeMismatch),
            },
            other => other.inv(),
        }
    }

    /// The transpose of a matrix-valued tree.
    pub fn t(self) -> (r: MatrixExpression)
        ensures
            r@ == self@.t(),
    {
        match self {
            MatrixExpression::Transpose(v) => *v,
            MatrixExpression::Constant(c) => {
                if matrix_col_count(c.value()) > 0 {
                    MatrixExpression::Constant(NumericMatrix::trusted(matrix_transpose(c.value())))
                } else {
                    MatrixExpression::Transpose(Box::new(MatrixExpression::Constant(c)))
                }
            },
            other => MatrixExpression::Transpose(Box::new(other)),
        }
    }

    /// The determinant of a matrix-valued tree.
    pub fn det(self) -> (r: MatrixExpression)
        ensures
            r@ == self@.det(),
    {
        MatrixExpression::Determinant(Box::new(self))
    }
}

} // verus!
