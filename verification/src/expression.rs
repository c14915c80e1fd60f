//! The three families of expression trees and their mathematical models.
//!
//! `Expression` is scalar valued, `TensorExpression` has any number of
//! axes, `MatrixExpression` has two.  A tree is never changed once built:
//! every operation takes trees and returns a new one.

use crate::constant_value::ConstantModel;
use crate::constant_value::ConstantValue;
use crate::error::AlgebraError;
use crate::constant_value::NumericMatrix;
use crate::constant_value::NumericTensor;
use crate::provider::MatrixValue;
use crate::provider::TensorValue;
use crate::size::copy_sizes;
use crate::size::Size;
use vstd::prelude::*;

verus! {

/// An exact rational exponent, `num / den`.
#[derive(Clone, Copy, Debug, PartialEq, Eq, Structural)]
pub struct Ratio {
    pub num: i64,
    pub den: u64,
}

/// One contraction of one term: the ranks of the term that are summed, each
/// with the identifier of its sum.  Ranks that carry one identifier, in
/// whatever terms, are summed together.
pub type RankCombination = Vec<(usize, usize)>;

/// A scalar-valued node.
#[derive(Debug, PartialEq)]
pub enum Expression {
    Symbol(String, Vec<Size>),
    Constant(ConstantValue),
    Add(Box<Expression>, Box<Expression>),
    Sub(Box<Expression>, Box<Expression>),
    Mul(Box<Expression>, Box<Expression>),
    Div(Box<Expression>, Box<Expression>),
    Neg(Box<Expression>),
    Pow(Box<Expression>, Ratio),
    Transcendental(Box<TranscendentalExpression>),
    Tensor(Box<TensorExpression>),
    Matrix(Box<MatrixExpression>),
    TensorElement(Box<TensorExpression>, Vec<usize>),
}

/// A transcendental function of scalar-valued nodes.
#[derive(Debug, PartialEq)]
pub enum TranscendentalExpression {
    Abs(Box<Expression>),
    Pow(Box<Expression>, Box<Expression>),
    Exp(Box<Expression>),
    Log(Box<Expression>, Box<Expression>),
    Ln(Box<Expression>),
    Sin(Box<Expression>),
    Cos(Box<Expression>),
    Tan(Box<Expression>),
}

/// A node with any number of axes.
///
/// The pairs of `KroneckerDeltas` are pairs of ranks.  A pair of two ranks
/// is the identity between them, and both axes have more than one element.
/// A pair of a rank with itself stands for an axis of one element, on which
/// the identity is the number one: it gives the node that axis and ties
/// nothing.  In a contraction, the rank combination of the Kronecker deltas
/// says with which other terms their ranks are summed.
#[derive(Debug, PartialEq)]
pub enum TensorExpression {
    Symbol(String, Vec<Size>),
    Constant(NumericTensor),
    Zero,
    KroneckerDeltas(Vec<(usize, usize)>),
    Add(Box<TensorExpression>, Box<TensorExpression>),
    Sub(Box<TensorExpression>, Box<TensorExpression>),
    MulScalarLhs(Box<Expression>, Box<TensorExpression>),
    MulScalarRhs(Box<TensorExpression>, Box<Expression>),
    Neg(Box<TensorExpression>),
    InnerProd { terms: Vec<TensorExpression>, rank_combinations: Vec<RankCombination> },
    Det(Box<MatrixExpression>),
    Mat(Box<MatrixExpression>),
}

/// A node with two axes.
#[derive(Debug, PartialEq)]
pub enum MatrixExpression {
    Mat(Box<TensorExpression>),
    Constant(NumericMatrix),
    Transpose(Box<MatrixExpression>),
    Inverse(Box<MatrixExpression>),
    Determinant(Box<MatrixExpression>),
}

/// The mathematical content of an [`Expression`].
pub enum ExprModel {
    Symbol(Seq<char>, Seq<Size>),
    Constant(ConstantModel),
    Add(Box<ExprModel>, Box<ExprModel>),
    Sub(Box<ExprModel>, Box<ExprModel>),
    Mul(Box<ExprModel>, Box<ExprModel>),
    Div(Box<ExprModel>, Box<ExprModel>),
    Neg(Box<ExprModel>),
    Pow(Box<ExprModel>, Ratio),
    Transcendental(Box<TransModel>),
    Tensor(Box<TensorModel>),
    Matrix(Box<MatrixModel>),
    TensorElement(Box<TensorModel>, Seq<usize>),
}

/// The mathematical content of a [`TranscendentalExpression`].
pub enum TransModel {
    Abs(Box<ExprModel>),
    Pow(Box<ExprModel>, Box<ExprModel>),
    Exp(Box<ExprModel>),
    Log(Box<ExprModel>, Box<ExprModel>),
    Ln(Box<ExprModel>),
    Sin(Box<ExprModel>),
    Cos(Box<ExprModel>),
    Tan(Box<ExprModel>),
}

/// The mathematical content of a [`TensorExpression`].
pub enum TensorModel {
    Symbol(Seq<char>, Seq<Size>),
    Constant(TensorValue),
    Zero,
    KroneckerDeltas(Seq<(usize, usize)>),
    Add(Box<TensorModel>, Box<TensorModel>),
    Sub(Box<TensorModel>, Box<TensorModel>),
    MulScalarLhs(Box<ExprModel>, Box<TensorModel>),
    MulScalarRhs(Box<TensorModel>, Box<ExprModel>),
    Neg(Box<TensorModel>),
    InnerProd { terms: Seq<TensorModel>, rank_combinations: Seq<Seq<(usize, usize)>> },
    Det(Box<MatrixModel>),
    Mat(Box<MatrixModel>),
}

/// The mathematical content of a [`MatrixExpression`].
pub enum MatrixModel {
    Mat(Box<TensorModel>),
    Constant(MatrixValue),
    Transpose(Box<MatrixModel>),
    Inverse(Box<MatrixModel>),
    Determinant(Box<MatrixModel>),
}

/// The model of a scalar-valued tree.
pub open spec fn expr_model(e: Expression) -> ExprModel
    decreases e,
{
    match e {
        Expression::Symbol(name, sizes) => ExprModel::Symbol(name@, sizes@),
        Expression::Constant(c) => ExprModel::Constant(c@),
        Expression::Add(l, r) => ExprModel::Add(Box::new(expr_model(*l)), Box::new(expr_model(*r))),
        Expression::Sub(l, r) => ExprModel::Sub(Box::new(expr_model(*l)), Box::new(expr_model(*r))),
        Expression::Mul(l, r) => ExprModel::Mul(Box::new(expr_model(*l)), Box::new(expr_model(*r))),
        Expression::Div(l, r) => ExprModel::Div(Box::new(expr_model(*l)), Box::new(expr_model(*r))),
        Expression::Neg(v) => ExprModel::Neg(Box::new(expr_model(*v))),
        Expression::Pow(b, e) => ExprModel::Pow(Box::new(expr_model(*b)), e),
        Expression::Transcendental(t) => ExprModel::Transcendental(Box::new(trans_model(*t))),
        Expression::Tensor(t) => ExprModel::Tensor(Box::new(tensor_model(*t))),
        Expression::Matrix(m) => ExprModel::Matrix(Box::new(matrix_model(*m))),
        Expression::TensorElement(t, index) => ExprModel::TensorElement(
            Box::new(tensor_model(*t)),
            index@,
        ),
    }
}

/// The model of a transcendental tree.
pub open spec fn trans_model(t: TranscendentalExpression) -> TransModel
    decreases t,
{
    match t {
        TranscendentalExpression::Abs(a) => TransModel::Abs(Box::new(expr_model(*a))),
        TranscendentalExpression::Pow(b, e) => TransModel::Pow(
            Box::new(expr_model(*b)),
            Box::new(expr_model(*e)),
        ),
        TranscendentalExpression::Exp(a) => TransModel::Exp(Box::new(expr_model(*a))),
        TranscendentalExpression::Log(b, a) => TransModel::Log(
            Box::new(expr_model(*b)),
            Box::new(expr_model(*a)),
        ),
        TranscendentalExpression::Ln(a) => TransModel::Ln(Box::new(expr_model(*a))),
        TranscendentalExpression::Sin(a) => TransModel::Sin(Box::new(expr_model(*a))),
        TranscendentalExpression::Cos(a) => TransModel::Cos(Box::new(expr_model(*a))),
        TranscendentalExpression::Tan(a) => TransModel::Tan(Box::new(expr_model(*a))),
    }
}

/// The model of a tensor-valued tree.
pub open spec fn tensor_model(t: TensorExpression) -> TensorModel
    decreases t,
{
    match t {
        TensorExpression::Symbol(name, sizes) => TensorModel::Symbol(name@, sizes@),
        TensorExpression::Constant(t) => TensorModel::Constant(t@),
        TensorExpression::Zero => TensorModel::Zero,
        TensorExpression::KroneckerDeltas(pairs) => TensorModel::KroneckerDeltas(pairs@),
        TensorExpression::Add(l, r) => TensorModel::Add(
            Box::new(tensor_model(*l)),
            Box::new(tensor_model(*r)),
        ),
        TensorExpression::Sub(l, r) => TensorModel::Sub(
            Box::new(tensor_model(*l)),
            Box::new(tensor_model(*r)),
        ),
        TensorExpression::MulScalarLhs(l, r) => TensorModel::MulScalarLhs(
            Box::new(expr_model(*l)),
            Box::new(tensor_model(*r)),
        ),
        TensorExpression::MulScalarRhs(l, r) => TensorModel::MulScalarRhs(
            Box::new(tensor_model(*l)),
            Box::new(expr_model(*r)),
        ),
        TensorExpression::Neg(v) => TensorModel::Neg(Box::new(tensor_model(*v))),
        TensorExpression::InnerProd { terms, rank_combinations } => TensorModel::InnerProd {
            terms: Seq::new(
                terms.len() as nat,
                |k: int|
                    if 0 <= k < terms.len() {
                        tensor_model(terms[k])
                    } else {
                        TensorModel::Zero
                    },
            ),
            rank_combinations: combinations_view(rank_combinations),
        },
        TensorExpression::Det(m) => TensorModel::Det(Box::new(matrix_model(*m))),
        TensorExpression::Mat(m) => TensorModel::Mat(Box::new(matrix_model(*m))),
    }
}

/// The model of a matrix-valued tree.
pub open spec fn matrix_model(m: MatrixExpression) -> MatrixModel
    decreases m,
{
    match m {
        MatrixExpression::Mat(t) => MatrixModel::Mat(Box::new(tensor_model(*t))),
        MatrixExpression::Constant(m) => MatrixModel::Constant(m@),
        MatrixExpression::Transpose(m) => MatrixModel::Transpose(Box::new(matrix_model(*m))),
        MatrixExpression::Inverse(m) => MatrixModel::Inverse(Box::new(matrix_model(*m))),
        MatrixExpression::Determinant(m) => MatrixModel::Determinant(Box::new(matrix_model(*m))),
    }
}

/// The models of a list of terms.
pub open spec fn terms_view(terms: Vec<TensorExpression>) -> Seq<TensorModel> {
    Seq::new(terms.len() as nat, |k: int| tensor_model(terms[k]))
}

/// The contents of a list of rank combinations.
pub open spec fn combinations_view(combinations: Vec<RankCombination>) -> Seq<Seq<(usize, usize)>> {
    Seq::new(combinations.len() as nat, |k: int| combinations[k]@)
}

/// The model of a contraction node holds the models of its terms and the
/// contents of its rank combinations.
pub proof fn lemma_inner_prod_model(t: TensorExpression)
    requires
        t is InnerProd,
    ensures
        tensor_model(t) == (TensorModel::InnerProd {
            terms: terms_view(t->terms),
            rank_combinations: combinations_view(t->rank_combinations),
        }),
{
    assert(tensor_model(t)->terms =~= terms_view(t->terms));
}

impl View for Expression {
    type V = ExprModel;

    open spec fn view(&self) -> ExprModel {
        expr_model(*self)
    }
}

impl View for TranscendentalExpression {
    type V = TransModel;

    open spec fn view(&self) -> TransModel {
        trans_model(*self)
    }
}

impl View for TensorExpression {
    type V = TensorModel;

    open spec fn view(&self) -> TensorModel {
        tensor_model(*self)
    }
}

impl View for MatrixExpression {
    type V = MatrixModel;

    open spec fn view(&self) -> MatrixModel {
        matrix_model(*self)
    }
}

/// What a construction of a scalar-valued tree came to, as a model.
pub open spec fn expr_outcome(r: Result<Expression, AlgebraError>) -> Result<
    ExprModel,
    AlgebraError,
> {
    match r {
        Ok(e) => Ok(e@),
        Err(x) => Err(x),
    }
}

/// What a construction of a tensor-valued tree came to, as a model.
pub open spec fn tensor_outcome(r: Result<TensorExpression, AlgebraError>) -> Result<
    TensorModel,
    AlgebraError,
> {
    match r {
        Ok(t) => Ok(t@),
        Err(x) => Err(x),
    }
}

/// What a construction of a matrix-valued tree came to, as a model.
pub open spec fn matrix_outcome(r: Result<MatrixExpression, AlgebraError>) -> Result<
    MatrixModel,
    AlgebraError,
> {
    match r {
        Ok(m) => Ok(m@),
        Err(x) => Err(x),
    }
}

/// Copies a list of pairs.
pub fn copy_pairs(pairs: &Vec<(usize, usize)>) -> (r: Vec<(usize, usize)>)
    ensures
        r@ == pairs@,
{
    let mut out: Vec<(usize, usize)> = Vec::new();
    let mut k: usize = 0;
    while k < pairs.len()
        invariant
            k <= pairs.len(),
            out@ == pairs@.subrange(0, k as int),
        decreases pairs.len() - k,
    {
        out.push(pairs[k]);
        proof {
            assert(out@ =~= pairs@.subrange(0, k + 1));
        }
        k += 1;
    }
    proof {
        assert(pairs@.subrange(0, pairs.len() as int) =~= pairs@);
    }
    out
}

/// Copies a list of indices.
pub fn copy_index(index: &Vec<usize>) -> (r: Vec<usize>)
    ensures
        r@ == index@,
{
    let mut out: Vec<usize> = Vec::new();
    let mut k: usize = 0;
    while k < index.len()
        invariant
            k <= index.len(),
            out@ == index@.subrange(0, k as int),
        decreases index.len() - k,
    {
        out.push(index[k]);
        proof {
            assert(out@ =~= index@.subrange(0, k + 1));
        }
        k += 1;
    }
    proof {
        assert(index@.subrange(0, index.len() as int) =~= index@);
    }
    out
}

/// Copies a list of rank combinations.
pub fn copy_combinations(combinations: &Vec<RankCombination>) -> (r: Vec<RankCombination>)
    ensures
        combinations_view(r) == combinations_view(*combinations),
{
    let mut out: Vec<RankCombination> = Vec::new();
    let mut k: usize = 0;
    while k < combinations.len()
        invariant
            k <= combinations.len(),
            out.len() == k,
            forall|j: int| 0 <= j < k ==> out[j]@ == combinations[j]@,
        decreases combinations.len() - k,
    {
        out.push(copy_pairs(&combinations[k]));
        k += 1;
    }
    proof {
        assert(combinations_view(out) =~= combinations_view(*combinations));
    }
    out
}

impl Expression {
    /// A copy of the tree.
    pub fn duplicate(&self) -> (r: Expression)
        ensures
            r@ == self@,
        decreases self,
    {
        match self {
            Expression::Symbol(name, sizes) => Expression::Symbol(name.clone(), copy_sizes(sizes)),
            Expression::Constant(c) => Expression::Constant(c.duplicate()),
            Expression::Add(l, r) => Expression::Add(
                Box::new(l.duplicate()),
                Box::new(r.duplicate()),
            ),
            Expression::Sub(l, r) => Expression::Sub(
                Box::new(l.duplicate()),
                Box::new(r.duplicate()),
            ),
            Expression::Mul(l, r) => Expression::Mul(
                Box::new(l.duplicate()),
                Box::new(r.duplicate()),
            ),
            Expression::Div(l, r) => Expression::Div(
                Box::new(l.duplicate()),
                Box::new(r.duplicate()),
            ),
            Expression::Neg(v) => Expression::Neg(Box::new(v.duplicate())),
            Expression::Pow(b, e) => Expression::Pow(Box::new(b.duplicate()), *e),
            Expression::Transcendental(t) => Expression::Transcendental(Box::new(t.duplicate())),
            Expression::Tensor(t) => Expression::Tensor(Box::new(t.duplicate())),
            Expression::Matrix(m) => Expression::Matrix(Box::new(m.duplicate())),
            Expression::TensorElement(t, index) => Expression::TensorElement(
                Box::new(t.duplicate()),
                copy_index(index),
            ),
        }
    }
}

impl TranscendentalExpression {
    /// A copy of the tree.
    pub fn duplicate(&self) -> (r: TranscendentalExpression)
        ensures
            r@ == self@,
        decreases self,
    {
        match self {
            TranscendentalExpression::Abs(a) => TranscendentalExpression::Abs(
                Box::new(a.duplicate()),
            ),
            TranscendentalExpression::Pow(b, e) => TranscendentalExpression::Pow(
                Box::new(b.duplicate()),
                Box::new(e.duplicate()),
            ),
            TranscendentalExpression::Exp(a) => TranscendentalExpression::Exp(
                Box::new(a.duplicate()),
            ),
            TranscendentalExpression::Log(b, a) => TranscendentalExpression::Log(
                Box::new(b.duplicate()),
                Box::new(a.duplicate()),
            ),
            TranscendentalExpression::Ln(a) => TranscendentalExpression::Ln(
                Box::new(a.duplicate()),
            ),
            TranscendentalExpression::Sin(a) => TranscendentalExpression::Sin(
                Box::new(a.duplicate()),
            ),
            TranscendentalExpression::Cos(a) => TranscendentalExpression::Cos(
                Box::new(a.duplicate()),
            ),
            TranscendentalExpression::Tan(a) => TranscendentalExpression::Tan(
                Box::new(a.duplicate()),
            ),
        }
    }
}

/// Copies a list of terms.
pub fn copy_terms(terms: &Vec<TensorExpression>) -> (r: Vec<TensorExpression>)
    ensures
        terms_view(r) == terms_view(*terms),
    decreases terms,
{
    let mut out: Vec<TensorExpression> = Vec::new();
    let mut k: usize = 0;
    while k < terms.len()
        invariant
            k <= terms.len(),
            out.len() == k,
            forall|j: int| 0 <= j < k ==> out[j]@ == terms[j]@,
        decreases terms.len() - k,
    {
        out.push(terms[k].duplicate());
        k += 1;
    }
    proof {
        assert(terms_view(out) =~= terms_view(*terms));
    }
    out
}

impl TensorExpression {
    /// A copy of the tree.
    pub fn duplicate(&self) -> (r: TensorExpression)
        ensures
            r@ == self@,
        decreases self,
    {
        match self {
            TensorExpression::Symbol(name, sizes) => TensorExpression::Symbol(
                name.clone(),
                copy_sizes(sizes),
            ),
            TensorExpression::Constant(t) => TensorExpression::Constant(t.duplicate()),
            TensorExpression::Zero => TensorExpression::Zero,
            TensorExpression::KroneckerDeltas(pairs) => TensorExpression::KroneckerDeltas(
                copy_pairs(pairs),
            ),
            TensorExpression::Add(l, r) => TensorExpression::Add(
                Box::new(l.duplicate()),
                Box::new(r.duplicate()),
            ),
            TensorExpression::Sub(l, r) => TensorExpression::Sub(
                Box::new(l.duplicate()),
                Box::new(r.duplicate()),
            ),
            TensorExpression::MulScalarLhs(l, r) => TensorExpression::MulScalarLhs(
                Box::new(l.duplicate()),
                Box::new(r.duplicate()),
            ),
            TensorExpression::MulScalarRhs(l, r) => TensorExpression::MulScalarRhs(
                Box::new(l.duplicate()),
                Box::new(r.duplicate()),
            ),
            TensorExpression::Neg(v) => TensorExpression::Neg(Box::new(v.duplicate())),
            TensorExpression::InnerProd { terms, rank_combinations } => {
                let copied = copy_terms(terms);
                let combos = copy_combinations(rank_combinations);
                let copy = TensorExpression::InnerProd { terms: copied, rank_combinations: combos };
                proof {
                    lemma_inner_prod_model(copy);
                    lemma_inner_prod_model(*self);
                }
                copy
            },
            TensorExpression::Det(m) => TensorExpression::Det(Box::new(m.duplicate())),
            TensorExpression::Mat(m) => TensorExpression::Mat(Box::new(m.duplicate())),
        }
    }
}

impl MatrixExpression {
    /// A copy of the tree.
    pub fn duplicate(&self) -> (r: MatrixExpression)
        ensures
            r@ == self@,
        decreases self,
    {
        match self {
            MatrixExpression::Mat(t) => MatrixExpression::Mat(Box::new(t.duplicate())),
            MatrixExpression::Constant(m) => MatrixExpression::Constant(m.duplicate()),
            MatrixExpression::Transpose(m) => MatrixExpression::Transpose(Box::new(m.duplicate())),
            MatrixExpression::Inverse(m) => MatrixExpression::Inverse(Box::new(m.duplicate())),
            MatrixExpression::Determinant(m) => MatrixExpression::Determinant(
                Box::new(m.duplicate()),
            ),
        }
    }
}

} // verus!
