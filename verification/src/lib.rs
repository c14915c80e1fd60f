//! A symbolic-algebra engine over scalars, dense matrices and sparse
//! tensors: it builds expression trees in canonical form, differentiates
//! them, substitutes constants for symbols, and renders them.

pub mod assign;
pub mod constant_value;
pub mod contraction;
pub mod differential;
pub mod error;
pub mod expression;
pub mod folding;
pub mod laws;
pub mod operators;
pub mod provider;
pub mod rust_code;
pub mod shape;
pub mod size;
pub mod tensor_ops;
pub mod tex_code;
pub mod text;
pub mod variable;

pub use constant_value::ConstantValue;
pub use constant_value::NumericMatrix;
pub use constant_value::NumericTensor;
pub use constant_value::Scalar;
pub use constant_value::ScalarClass;
pub use contraction::contract_terms;
pub use contraction::InnerProd;
pub use error::AlgebraError;
pub use expression::Expression;
pub use expression::MatrixExpression;
pub use expression::RankCombination;
pub use expression::Ratio;
pub use expression::TensorExpression;
pub use expression::TranscendentalExpression;
pub use operators::new_symbol;
pub use operators::new_variable;
pub use operators::new_variable_tensor;
pub use provider::MatrixValue;
pub use provider::TensorValue;
pub use size::Size;
pub use tensor_ops::mul_scalar;
pub use tex_code::BracketsLevel;
pub use text::next_char;
