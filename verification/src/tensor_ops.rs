//! The simplifying constructors of tensor-valued trees: negation, sum,
//! difference and the product with a scalar-valued tree.

use crate::constant_value::NumericTensor;
use crate::constant_value::ConstantModel;
use crate::constant_value::ConstantValue;
use crate::error::AlgebraError;
use crate::expression::tensor_outcome;
use crate::expression::ExprModel;
use crate::expression::Expression;
use crate::expression::TensorExpression;
use crate::expression::TensorModel;
use crate::provider::tensor_difference;
use crate::provider::tensor_neg;
use crate::provider::tensor_negation;
use crate::provider::tensor_shape;
use crate::provider::tensor_sum;
use vstd::prelude::*;

verus! {

impl TensorModel {
    /// The negation: a constant is negated, a double negation cancels; any
    /// other tree stands under a negation node.
    pub open spec fn neg(self) -> TensorModel {
        match self {
            TensorModel::Constant(c) => TensorModel::Constant(tensor_negation(c)),
            TensorModel::Neg(v) => *v,
            _ => TensorModel::Neg(Box::new(self)),
        }
    }

    /// The sum: zero is dropped, two constants of one shape are added.
    pub open spec fn add(self, rhs: TensorModel) -> Result<TensorModel, AlgebraError> {
        if rhs is Zero {
            Ok(self)
        } else if self is Zero {
            Ok(rhs)
        } else {
            match (self, rhs) {
                (TensorModel::Constant(a), TensorModel::Constant(b)) => if tensor_shape(a)
                    == tensor_shape(b) {
                    Ok(TensorModel::Constant(tensor_sum(a, b)))
                } else {
                    Err(AlgebraError::ShapeMismatch)
                },
                _ => Ok(TensorModel::Add(Box::new(self), Box::new(rhs))),
            }
        }
    }

    /// The difference: subtracting zero changes nothing, subtracting from
    /// zero negates, two constants of one shape are subtracted.
    pub open spec fn sub(self, rhs: TensorModel) -> Result<TensorModel, AlgebraError> {
        if rhs is Zero {
            Ok(self)
        } else if self is Zero {
            Ok(rhs.neg())
        } else {
            match (self, rhs) {
                (TensorModel::Constant(a), TensorModel::Constant(b)) => if tensor_shape(a)
                    == tensor_shape(b) {
                    Ok(TensorModel::Constant(tensor_difference(a, b)))
                } else {
                    Err(AlgebraError::ShapeMismatch)
                },
                _ => Ok(TensorModel::Sub(Box::new(self), Box::new(rhs))),
            }
        }
    }

    /// The product of the tensor `self` with the scalar-valued `factor`,
    /// which stands on the right when `swap` holds and on the left
    /// otherwise.  Two constants are multiplied; the factor zero gives zero
    /// and the factor one gives the tensor; zero stays zero.
    pub open spec fn scale(self, factor: ExprModel, swap: bool) -> Result<
        TensorModel,
        AlgebraError,
    > {
        if factor is Constant && self is Constant {
            let folded = if swap {
                ConstantModel::Tensor(self->Constant_0).mul(factor->Constant_0)
            } else {
                factor->Constant_0.mul(ConstantModel::Tensor(self->Constant_0))
            };
            match folded {
                Ok(ConstantModel::Tensor(t)) => Ok(TensorModel::Constant(t)),
                Ok(_) => Err(AlgebraError::VariantMismatch),
                Err(e) => Err(e),
            }
        } else if factor is Constant && factor->Constant_0.is_zero_scalar() {
            Ok(TensorModel::Zero)
        } else if factor is Constant && factor->Constant_0.is_one_scalar() {
            Ok(self)
        } else if self is Zero {
            Ok(TensorModel::Zero)
        } else if swap {
            Ok(TensorModel::MulScalarRhs(Box::new(self), Box::new(factor)))
        } else {
            Ok(TensorModel::MulScalarLhs(Box::new(factor), Box::new(self)))
        }
    }
}

/// The product of a scalar-valued tree and a tensor-valued tree, the scalar
/// standing on the right when `swap` holds.
pub fn mul_scalar(lhs: Expression, rhs: TensorExpression, swap: bool) -> (r: Result<
    TensorExpression,
    AlgebraError,
>)
    ensures
        tensor_outcome(r) == rhs@.scale(lhs@, swap),
{
    if let Expression::Constant(vl) = &lhs {
        if let TensorExpression::Constant(vr) = &rhs {
            let tensor = ConstantValue::Tensor(vr.duplicate());
            let folded = if swap {
                tensor.mul(vl)
            } else {
                vl.mul(&tensor)
            };
            return match folded {
                Ok(ConstantValue::Tensor(t)) => Ok(TensorExpression::Constant(t)),
                Ok(_) => Err(AlgebraError::VariantMismatch),
                Err(e) => Err(e),
            };
        }
        if vl.is_zero_scalar() {
            return Ok(TensorExpression::Zero);
        }
        if vl.is_one_scalar() {
            return Ok(rhs);
        }
    }
    if let TensorExpression::Zero = &rhs {
        return Ok(TensorExpression::Zero);
    }
    if swap {
        Ok(TensorExpression::MulScalarRhs(Box::new(rhs), Box::new(lhs)))
    } else {
        Ok(TensorExpression::MulScalarLhs(Box::new(lhs), Box::new(rhs)))
    }
}

impl TensorExpression {
    /// Whether the tree is the zero tensor.
    pub fn is_zero(&self) -> (r: bool)
        ensures
            r == (self@ is Zero),
    {
        match self {
            TensorExpression::Zero => true,
            _ => false,
        }
    }

    /// The negation of the tree.
    pub fn neg(self) -> (r: TensorExpression)
        ensures
            r@ == self@.neg(),
    {
        match self {
            TensorExpression::Constant(c) => TensorExpression::Constant(
                NumericTensor::trusted(tensor_neg(c.value())),
            ),
            TensorExpression::Neg(v) => *v,
            other => TensorExpression::Neg(Box::new(other)),
        }
    }

    /// The sum of two trees.
    pub fn add(self, rhs: TensorExpression) -> (r: Result<TensorExpression, AlgebraError>)
        ensures
            tensor_outcome(r) == self@.add(rhs@),
    {
        if rhs.is_zero() {
            return Ok(self);
        }
        if self.is_zero() {
            return Ok(rhs);
        }
        match (self, rhs) {
            (TensorExpression::Constant(a), TensorExpression::Constant(b)) => {
                let sum = ConstantValue::Tensor(a).add(&ConstantValue::Tensor(b));
                match sum {
                    Ok(ConstantValue::Tensor(t)) => Ok(TensorExpression::Constant(t)),
                    Ok(_) => Err(AlgebraError::ShapeMismatch),
                    Err(e) => Err(e),
                }
            },
            (l, r) => Ok(TensorExpression::Add(Box::new(l), Box::new(r))),
        }
    }

    /// The difference of two trees.
    pub fn sub(self, rhs: TensorExpression) -> (r: Result<TensorExpression, AlgebraError>)
        ensures
            tensor_outcome(r) == self@.sub(rhs@),
    {
        if rhs.is_zero() {
            return Ok(self);
        }
        if self.is_zero() {
            return Ok(rhs.neg());
        }
        match (self, rhs) {
            (TensorExpression::Constant(a), TensorExpression::Constant(b)) => {
                let difference = ConstantValue::Tensor(a).sub(&ConstantValue::Tensor(b));
                match difference {
                    Ok(ConstantValue::Tensor(t)) => Ok(TensorExpression::Constant(t)),
                    Ok(_) => Err(AlgebraError::ShapeMismatch),
                    Err(e) => Err(e),
                }
            },
            (l, r) => Ok(TensorExpression::Sub(Box::new(l), Box::new(r))),
        }
    }

    /// The product with a scalar-valued tree on the right.
    pub fn mul(self, rhs: Expression) -> (r: Result<TensorExpression, AlgebraError>)
        ensures
            tensor_outcome(r) == self@.scale(rhs@, true),
    {
        mul_scalar(rhs, self, true)
    }
}

} // verus!
