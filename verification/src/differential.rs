//! Symbolic differentiation: the partial derivative of a tree with respect to
//! a named symbol, by structural recursion.
//!
//! A derivative stays symbolic.  It is built with the simplifying
//! constructors, so it fails where one of them does.

use crate::constant_value::ratio_cell;
use crate::constant_value::ConstantModel;
use crate::constant_value::ConstantValue;
use crate::constant_value::Scalar;
use crate::constant_value::ScalarModel;
use crate::contraction::contract_terms;
use crate::contraction::contraction;
use crate::contraction::inner_product;
use crate::error::AlgebraError;
use crate::expression::combinations_view;
use crate::expression::copy_terms;
use crate::expression::expr_outcome;
use crate::expression::lemma_inner_prod_model;
use crate::expression::tensor_outcome;
use crate::expression::terms_view;
use crate::expression::ExprModel;
use crate::expression::Expression;
use crate::expression::MatrixExpression;
use crate::expression::MatrixModel;
use crate::expression::RankCombination;
use crate::expression::Ratio;
use crate::expression::TensorExpression;
use crate::expression::TensorModel;
use crate::expression::TransModel;
use crate::expression::TranscendentalExpression;
use crate::size::Size;
use crate::shape::expr_sizes;
use crate::shape::matrix_sizes;
use crate::shape::tensor_sizes;
use crate::shape::trans_sizes;
use crate::tensor_ops::mul_scalar;
use vstd::prelude::*;
use vstd::string::StringExecFns;

verus! {

/// The sum of two outcomes; the first failure is kept.
pub open spec fn lift_add(a: Result<ExprModel, AlgebraError>, b: Result<ExprModel, AlgebraError>) -> Result<
    ExprModel,
    AlgebraError,
> {
    match (a, b) {
        (Err(e), _) => Err(e),
        (Ok(_), Err(e)) => Err(e),
        (Ok(x), Ok(y)) => x.add(y),
    }
}

/// The difference of two outcomes; the first failure is kept.
pub open spec fn lift_sub(a: Result<ExprModel, AlgebraError>, b: Result<ExprModel, AlgebraError>) -> Result<
    ExprModel,
    AlgebraError,
> {
    match (a, b) {
        (Err(e), _) => Err(e),
        (Ok(_), Err(e)) => Err(e),
        (Ok(x), Ok(y)) => x.sub(y),
    }
}

/// The product of two outcomes; the first failure is kept.
pub open spec fn lift_mul(a: Result<ExprModel, AlgebraError>, b: Result<ExprModel, AlgebraError>) -> Result<
    ExprModel,
    AlgebraError,
> {
    match (a, b) {
        (Err(e), _) => Err(e),
        (Ok(_), Err(e)) => Err(e),
        (Ok(x), Ok(y)) => x.mul(y),
    }
}

/// The quotient of two outcomes; the first failure is kept.
pub open spec fn lift_div(a: Result<ExprModel, AlgebraError>, b: Result<ExprModel, AlgebraError>) -> Result<
    ExprModel,
    AlgebraError,
> {
    match (a, b) {
        (Err(e), _) => Err(e),
        (Ok(_), Err(e)) => Err(e),
        (Ok(x), Ok(y)) => x.div(y),
    }
}

/// The negation of an outcome.
pub open spec fn lift_neg(a: Result<ExprModel, AlgebraError>) -> Result<ExprModel, AlgebraError> {
    match a {
        Err(e) => Err(e),
        Ok(x) => Ok(x.neg()),
    }
}

/// A tensor-valued outcome as a scalar-valued tree.
pub open spec fn lift_tensor(a: Result<TensorModel, AlgebraError>) -> Result<
    ExprModel,
    AlgebraError,
> {
    match a {
        Err(e) => Err(e),
        Ok(t) => Ok(ExprModel::Tensor(Box::new(t))),
    }
}

/// The sum of two tensor-valued outcomes; the first failure is kept.
pub open spec fn lift_tensor_add(
    a: Result<TensorModel, AlgebraError>,
    b: Result<TensorModel, AlgebraError>,
) -> Result<TensorModel, AlgebraError> {
    match (a, b) {
        (Err(e), _) => Err(e),
        (Ok(_), Err(e)) => Err(e),
        (Ok(x), Ok(y)) => x.add(y),
    }
}

/// The difference of two tensor-valued outcomes; the first failure is kept.
pub open spec fn lift_tensor_sub(
    a: Result<TensorModel, AlgebraError>,
    b: Result<TensorModel, AlgebraError>,
) -> Result<TensorModel, AlgebraError> {
    match (a, b) {
        (Err(e), _) => Err(e),
        (Ok(_), Err(e)) => Err(e),
        (Ok(x), Ok(y)) => x.sub(y),
    }
}

/// The negation of a tensor-valued outcome.
pub open spec fn lift_tensor_neg(a: Result<TensorModel, AlgebraError>) -> Result<
    TensorModel,
    AlgebraError,
> {
    match a {
        Err(e) => Err(e),
        Ok(x) => Ok(x.neg()),
    }
}

/// The product of a tensor-valued outcome and a scalar-valued one; the
/// tensor's failure is kept first.
pub open spec fn lift_scale(
    t: Result<TensorModel, AlgebraError>,
    factor: Result<ExprModel, AlgebraError>,
    swap: bool,
) -> Result<TensorModel, AlgebraError> {
    match (t, factor) {
        (Err(e), _) => Err(e),
        (Ok(_), Err(e)) => Err(e),
        (Ok(x), Ok(f)) => x.scale(f, swap),
    }
}

/// The Kronecker deltas that stand for the derivative of a tensor of the
/// shape `sizes` with respect to itself, the new axes standing from `offset`
/// on: an axis `k` of more than one element is tied to axis `offset + k`,
/// and for an axis of one element axis `offset + k` is paired with itself,
/// so that the deltas have the shape of the tensor followed by itself.
pub open spec fn identity_pairs(sizes: Seq<Size>, offset: nat) -> Seq<(usize, usize)> {
    Seq::new(
        sizes.len(),
        |k: int|
            if 0 <= k < sizes.len() && sizes[k] is One {
                ((k + offset) as usize, (k + offset) as usize)
            } else {
                (k as usize, (k + offset) as usize)
            },
    )
}

/// Where the axes of the derivative of a symbol of `rank` axes stand: from
/// `offset` on, and behind the axes of the symbol.
pub open spec fn axes_from(rank: nat, offset: nat) -> nat {
    if offset > rank {
        offset
    } else {
        rank
    }
}

/// The derivative of a tensor-shaped symbol with respect to `name`, the
/// axes of the derivative standing from `offset` on, and behind those of
/// the symbol.
pub open spec fn d_symbol(symbol: Seq<char>, sizes: Seq<Size>, name: Seq<char>, offset: nat) -> Result<
    TensorModel,
    AlgebraError,
> {
    if symbol != name {
        Ok(TensorModel::Zero)
    } else if axes_from(sizes.len(), offset) + sizes.len() > usize::MAX {
        Err(AlgebraError::IndexOutOfRange)
    } else {
        Ok(TensorModel::KroneckerDeltas(identity_pairs(sizes, axes_from(sizes.len(), offset))))
    }
}

/// The scalar constant of an exact ratio.
pub open spec fn ratio_constant(q: Ratio) -> ExprModel {
    ExprModel::Constant(
        ConstantModel::Scalar(ScalarModel::of(ratio_cell(q.num as int, q.den as nat))),
    )
}

/// The derivative of the determinant of `m`, given the derivative `dm` of
/// `m`: the determinant times the trace of the inverse times `dm`.
pub open spec fn jacobi(m: MatrixModel, dm: Result<TensorModel, AlgebraError>) -> Result<
    TensorModel,
    AlgebraError,
> {
    match dm {
        Err(e) => Err(e),
        Ok(d) => match m.inv() {
            Err(e) => Err(e),
            Ok(inverse) => match inner_product(
                TensorModel::Mat(Box::new(inverse)),
                d,
                seq![(1usize, 0usize), (0usize, 1usize)],
            ) {
                Err(e) => Err(e),
                Ok(trace) => trace.scale(
                    ExprModel::Tensor(Box::new(TensorModel::Det(Box::new(m)))),
                    false,
                ),
            },
        },
    }
}

/// The derivative of the inverse of `v`, given the derivative `dv` of `v`:
/// the negated inverse times `dv` times the inverse.  The second rank of
/// the first inverse is contracted with the first rank of `dv`, and the
/// second rank of `dv` with the first rank of the second inverse; the outer
/// ranks stay open.
pub open spec fn inverse_rule(v: MatrixModel, dv: Result<TensorModel, AlgebraError>) -> Result<
    TensorModel,
    AlgebraError,
> {
    match dv {
        Err(e) => Err(e),
        Ok(d) => match v.inv() {
            Err(e) => Err(e),
            Ok(inverse) => match inner_product(
                TensorModel::Mat(Box::new(inverse)).neg(),
                d,
                seq![(1usize, 0usize)],
            ) {
                Err(e) => Err(e),
                Ok(left) => inner_product(
                    left,
                    TensorModel::Mat(Box::new(inverse)),
                    seq![(1usize, 0usize)],
                ),
            },
        },
    }
}

/// The derivative of the transpose of a matrix, given the derivative of the
/// matrix.
pub open spec fn transpose_rule(dv: Result<TensorModel, AlgebraError>) -> Result<
    TensorModel,
    AlgebraError,
> {
    match dv {
        Err(e) => Err(e),
        Ok(d) => Ok(TensorModel::Mat(Box::new(MatrixModel::Mat(Box::new(d)).t()))),
    }
}

/// The contraction in which term `i` is replaced by its derivative.
pub open spec fn replaced(
    terms: Seq<TensorModel>,
    combinations: Seq<Seq<(usize, usize)>>,
    i: int,
    derivative: Result<TensorModel, AlgebraError>,
) -> Result<TensorModel, AlgebraError> {
    match derivative {
        Err(e) => Err(e),
        Ok(d) => contraction(terms.update(i, d), combinations),
    }
}

/// The derivative of a scalar-valued tree with respect to `name`.
///
/// A symbol of that name gives one, or the Kronecker deltas of its axes;
/// another symbol and a constant give zero.  Sum, difference and negation
/// are linear; the product and the quotient follow their rules; every
/// transcendental function follows the chain rule.  The derivative of an
/// entry of a tensor is not provided.
pub open spec fn d_expr(e: ExprModel, name: Seq<char>, offset: nat) -> Result<ExprModel, AlgebraError>
    decreases e, 0nat,
{
    match e {
        ExprModel::Symbol(symbol, sizes) => if sizes.len() == 0 {
            if symbol == name {
                Ok(ExprModel::one())
            } else {
                Ok(ExprModel::zero())
            }
        } else {
            lift_tensor(d_symbol(symbol, sizes, name, offset))
        },
        ExprModel::Constant(c) => if c is Scalar {
            Ok(ExprModel::zero())
        } else {
            Ok(ExprModel::zero_tensor())
        },
        ExprModel::Add(l, r) => lift_add(d_expr(*l, name, offset), d_expr(*r, name, offset)),
        ExprModel::Sub(l, r) => lift_sub(d_expr(*l, name, offset), d_expr(*r, name, offset)),
        ExprModel::Mul(l, r) => lift_add(
            lift_mul(d_expr(*l, name, offset), Ok(*r)),
            lift_mul(Ok(*l), d_expr(*r, name, offset)),
        ),
        ExprModel::Div(l, r) => lift_sub(
            lift_div(d_expr(*l, name, offset), Ok(*r)),
            lift_div(lift_mul(Ok(*l), d_expr(*r, name, offset)), r.mul(*r)),
        ),
        ExprModel::Neg(v) => lift_neg(d_expr(*v, name, offset)),
        ExprModel::Pow(b, q) => match q.minus_one() {
            None => Err(AlgebraError::Unimplemented),
            Some(lower) => lift_mul(ratio_constant(q).mul(b.powr(lower)), d_expr(*b, name, offset)),
        },
        ExprModel::Transcendental(t) => d_trans(*t, name, offset),
        ExprModel::Tensor(t) => lift_tensor(d_tensor(*t, name, offset)),
        ExprModel::Matrix(m) => lift_tensor(d_matrix(*m, name, offset)),
        ExprModel::TensorElement(_, _) => Err(AlgebraError::Unimplemented),
    }
}

/// The derivative of a transcendental function, by the chain rule.
pub open spec fn d_trans(t: TransModel, name: Seq<char>, offset: nat) -> Result<ExprModel, AlgebraError>
    decreases t, 0nat,
{
    match t {
        TransModel::Abs(u) => lift_mul(u.div(u.abs()), d_expr(*u, name, offset)),
        TransModel::Pow(b, e) => lift_mul(
            Ok(b.pow(*e)),
            lift_add(
                lift_mul(d_expr(*e, name, offset), Ok(b.ln())),
                lift_div(lift_mul(Ok(*e), d_expr(*b, name, offset)), Ok(*b)),
            ),
        ),
        TransModel::Exp(u) => lift_mul(Ok(u.exp()), d_expr(*u, name, offset)),
        TransModel::Log(b, a) => lift_sub(
            lift_div(d_expr(*a, name, offset), a.mul(b.ln())),
            lift_div(
                lift_mul(Ok(a.ln()), d_expr(*b, name, offset)),
                lift_mul(Ok(*b), b.ln().mul(b.ln())),
            ),
        ),
        TransModel::Ln(u) => lift_div(d_expr(*u, name, offset), Ok(*u)),
        TransModel::Sin(u) => lift_mul(Ok(u.cos()), d_expr(*u, name, offset)),
        TransModel::Cos(u) => lift_mul(Ok(u.sin().neg()), d_expr(*u, name, offset)),
        TransModel::Tan(u) => lift_div(d_expr(*u, name, offset), u.cos().mul(u.cos())),
    }
}

/// The derivative of a contraction from term `i` on, added to `sum`: for
/// each term, the contraction in which its derivative stands in its place.
pub open spec fn leibniz_from(
    terms: Seq<TensorModel>,
    combinations: Seq<Seq<(usize, usize)>>,
    name: Seq<char>,
    offset: nat,
    i: int,
    sum: Result<TensorModel, AlgebraError>,
) -> Result<TensorModel, AlgebraError>
    decreases terms, terms.len() - i,
{
    if i < 0 || i >= terms.len() {
        sum
    } else {
        leibniz_from(
            terms,
            combinations,
            name,
            offset,
            i + 1,
            lift_tensor_add(sum, replaced(terms, combinations, i, d_tensor(terms[i], name, offset))),
        )
    }
}

/// The derivative of a tensor-valued tree with respect to `name`.
pub open spec fn d_tensor(t: TensorModel, name: Seq<char>, offset: nat) -> Result<TensorModel, AlgebraError>
    decreases t, 0nat,
{
    match t {
        TensorModel::Symbol(symbol, sizes) => d_symbol(symbol, sizes, name, offset),
        TensorModel::Constant(_) => Ok(TensorModel::Zero),
        TensorModel::Zero => Ok(TensorModel::Zero),
        TensorModel::KroneckerDeltas(_) => Ok(TensorModel::Zero),
        TensorModel::Add(l, r) => lift_tensor_add(d_tensor(*l, name, offset), d_tensor(*r, name, offset)),
        TensorModel::Sub(l, r) => lift_tensor_sub(d_tensor(*l, name, offset), d_tensor(*r, name, offset)),
        TensorModel::MulScalarLhs(l, r) => lift_tensor_add(
            lift_scale(Ok(*r), d_expr(*l, name, offset), false),
            lift_scale(d_tensor(*r, name, offset), Ok(*l), false),
        ),
        TensorModel::MulScalarRhs(l, r) => lift_tensor_add(
            lift_scale(d_tensor(*l, name, offset), Ok(*r), true),
            lift_scale(Ok(*l), d_expr(*r, name, offset), true),
        ),
        TensorModel::Neg(v) => lift_tensor_neg(d_tensor(*v, name, offset)),
        TensorModel::InnerProd { terms, rank_combinations } => leibniz_from(
            terms,
            rank_combinations,
            name,
            offset,
            0,
            Ok(TensorModel::Zero),
        ),
        TensorModel::Det(m) => jacobi(*m, d_matrix(*m, name, offset)),
        TensorModel::Mat(m) => d_matrix(*m, name, offset),
    }
}

/// The derivative of a matrix-valued tree with respect to `name`, as a
/// tensor-valued tree.
pub open spec fn d_matrix(m: MatrixModel, name: Seq<char>, offset: nat) -> Result<TensorModel, AlgebraError>
    decreases m, 0nat,
{
    match m {
        MatrixModel::Mat(t) => d_tensor(*t, name, offset),
        MatrixModel::Constant(_) => Ok(TensorModel::Zero),
        MatrixModel::Transpose(v) => transpose_rule(d_matrix(*v, name, offset)),
        MatrixModel::Inverse(v) => inverse_rule(*v, d_matrix(*v, name, offset)),
        MatrixModel::Determinant(v) => jacobi(*v, d_matrix(*v, name, offset)),
    }
}

/// The derivatives of a scalar-valued tree with respect to the names from
/// `i` on, behind `done`; the first failure is kept.
pub open spec fn d_expr_all(
    e: ExprModel,
    names: Seq<Seq<char>>,
    i: int,
    done: Seq<ExprModel>,
) -> Result<Seq<ExprModel>, AlgebraError>
    decreases names.len() - i,
{
    if i < 0 || i >= names.len() {
        Ok(done)
    } else {
        match d_expr(e, names[i], expr_sizes(e).len()) {
            Err(x) => Err(x),
            Ok(d) => d_expr_all(e, names, i + 1, done.push(d)),
        }
    }
}

/// The derivatives of a tensor-valued tree with respect to the names from
/// `i` on, behind `done`.
pub open spec fn d_tensor_all(
    t: TensorModel,
    names: Seq<Seq<char>>,
    i: int,
    done: Seq<TensorModel>,
) -> Result<Seq<TensorModel>, AlgebraError>
    decreases names.len() - i,
{
    if i < 0 || i >= names.len() {
        Ok(done)
    } else {
        match d_tensor(t, names[i], tensor_sizes(t).len()) {
            Err(x) => Err(x),
            Ok(d) => d_tensor_all(t, names, i + 1, done.push(d)),
        }
    }
}

/// The derivatives of a matrix-valued tree with respect to the names from
/// `i` on, behind `done`.
pub open spec fn d_matrix_all(
    m: MatrixModel,
    names: Seq<Seq<char>>,
    i: int,
    done: Seq<TensorModel>,
) -> Result<Seq<TensorModel>, AlgebraError>
    decreases names.len() - i,
{
    if i < 0 || i >= names.len() {
        Ok(done)
    } else {
        match d_matrix(m, names[i], matrix_sizes(m).len()) {
            Err(x) => Err(x),
            Ok(d) => d_matrix_all(m, names, i + 1, done.push(d)),
        }
    }
}

/// The names of a list of symbols.
pub open spec fn names_view(symbols: &[&str]) -> Seq<Seq<char>> {
    Seq::new(symbols@.len(), |k: int| symbols@[k]@)
}

/// The models of a list of scalar-valued trees.
pub open spec fn exprs_view(list: Vec<Expression>) -> Seq<ExprModel> {
    Seq::new(list.len() as nat, |k: int| list[k]@)
}

pub(crate) fn sum_of(a: Result<Expression, AlgebraError>, b: Result<Expression, AlgebraError>) -> (r: Result<
    Expression,
    AlgebraError,
>)
    ensures
        expr_outcome(r) == lift_add(expr_outcome(a), expr_outcome(b)),
{
    match (a, b) {
        (Err(e), _) => Err(e),
        (Ok(_), Err(e)) => Err(e),
        (Ok(x), Ok(y)) => x.add(y),
    }
}

pub(crate) fn difference_of(a: Result<Expression, AlgebraError>, b: Result<Expression, AlgebraError>) -> (r:
    Result<Expression, AlgebraError>)
    ensures
        expr_outcome(r) == lift_sub(expr_outcome(a), expr_outcome(b)),
{
    match (a, b) {
        (Err(e), _) => Err(e),
        (Ok(_), Err(e)) => Err(e),
        (Ok(x), Ok(y)) => x.sub(y),
    }
}

pub(crate) fn product_of(a: Result<Expression, AlgebraError>, b: Result<Expression, AlgebraError>) -> (r:
    Result<Expression, AlgebraError>)
    ensures
        expr_outcome(r) == lift_mul(expr_outcome(a), expr_outcome(b)),
{
    match (a, b) {
        (Err(e), _) => Err(e),
        (Ok(_), Err(e)) => Err(e),
        (Ok(x), Ok(y)) => x.mul(y),
    }
}

pub(crate) fn quotient_of(a: Result<Expression, AlgebraError>, b: Result<Expression, AlgebraError>) -> (r:
    Result<Expression, AlgebraError>)
    ensures
        expr_outcome(r) == lift_div(expr_outcome(a), expr_outcome(b)),
{
    match (a, b) {
        (Err(e), _) => Err(e),
        (Ok(_), Err(e)) => Err(e),
        (Ok(x), Ok(y)) => x.div(y),
    }
}

fn negation_of(a: Result<Expression, AlgebraError>) -> (r: Result<Expression, AlgebraError>)
    ensures
        expr_outcome(r) == lift_neg(expr_outcome(a)),
{
    match a {
        Err(e) => Err(e),
        Ok(x) => Ok(x.neg()),
    }
}

fn as_expression(a: Result<TensorExpression, AlgebraError>) -> (r: Result<Expression, AlgebraError>)
    ensures
        expr_outcome(r) == lift_tensor(tensor_outcome(a)),
{
    match a {
        Err(e) => Err(e),
        Ok(t) => Ok(Expression::Tensor(Box::new(t))),
    }
}

pub(crate) fn tensor_sum_of(
    a: Result<TensorExpression, AlgebraError>,
    b: Result<TensorExpression, AlgebraError>,
) -> (r: Result<TensorExpression, AlgebraError>)
    ensures
        tensor_outcome(r) == lift_tensor_add(tensor_outcome(a), tensor_outcome(b)),
{
    match (a, b) {
        (Err(e), _) => Err(e),
        (Ok(_), Err(e)) => Err(e),
        (Ok(x), Ok(y)) => x.add(y),
    }
}

pub(crate) fn tensor_difference_of(
    a: Result<TensorExpression, AlgebraError>,
    b: Result<TensorExpression, AlgebraError>,
) -> (r: Result<TensorExpression, AlgebraError>)
    ensures
        tensor_outcome(r) == lift_tensor_sub(tensor_outcome(a), tensor_outcome(b)),
{
    match (a, b) {
        (Err(e), _) => Err(e),
        (Ok(_), Err(e)) => Err(e),
        (Ok(x), Ok(y)) => x.sub(y),
    }
}

fn tensor_negation_of(a: Result<TensorExpression, AlgebraError>) -> (r: Result<
    TensorExpression,
    AlgebraError,
>)
    ensures
        tensor_outcome(r) == lift_tensor_neg(tensor_outcome(a)),
{
    match a {
        Err(e) => Err(e),
        Ok(x) => Ok(x.neg()),
    }
}

pub(crate) fn scaled(
    t: Result<TensorExpression, AlgebraError>,
    factor: Result<Expression, AlgebraError>,
    swap: bool,
) -> (r: Result<TensorExpression, AlgebraError>)
    ensures
        tensor_outcome(r) == lift_scale(tensor_outcome(t), expr_outcome(factor), swap),
{
    match (t, factor) {
        (Err(e), _) => Err(e),
        (Ok(_), Err(e)) => Err(e),
        (Ok(x), Ok(f)) => mul_scalar(f, x, swap),
    }
}

/// The derivative of a symbol of the shape `sizes` with respect to `name`.
fn symbol_derivative(symbol: &String, sizes: &Vec<Size>, name: &String, offset: usize) -> (r: Result<
    TensorExpression,
    AlgebraError,
>)
    ensures
        tensor_outcome(r) == d_symbol(symbol@, sizes@, name@, offset as nat),
{
    if !(*symbol == *name) {
        return Ok(TensorExpression::Zero);
    }
    let rank = sizes.len();
    let from = if offset > rank {
        offset
    } else {
        rank
    };
    if rank > usize::MAX - from {
        return Err(AlgebraError::IndexOutOfRange);
    }
    let mut pairs: Vec<(usize, usize)> = Vec::new();
    let mut k: usize = 0;
    while k < rank
        invariant
            k <= rank,
            from + rank <= usize::MAX,
            rank == sizes.len(),
            pairs@.len() == k,
            forall|j: int| 0 <= j < k ==> pairs@[j] == identity_pairs(sizes@, from as nat)[j],
        decreases rank - k,
    {
        match sizes[k] {
            Size::One => {
                pairs.push((k + from, k + from));
            },
            Size::Many => {
                pairs.push((k, k + from));
            },
        }
        k += 1;
    }
    proof {
        assert(pairs@ =~= identity_pairs(sizes@, from as nat));
    }
    Ok(TensorExpression::KroneckerDeltas(pairs))
}

fn jacobi_of(m: &MatrixExpression, dm: Result<TensorExpression, AlgebraError>) -> (r: Result<
    TensorExpression,
    AlgebraError,
>)
    ensures
        tensor_outcome(r) == jacobi(m@, tensor_outcome(dm)),
{
    let d = match dm {
        Err(e) => {
            return Err(e);
        },
        Ok(d) => d,
    };
    let inverse = match m.duplicate().inv() {
        Err(e) => {
            return Err(e);
        },
        Ok(inverse) => inverse,
    };
    let mut pairs: Vec<(usize, usize)> = Vec::new();
    pairs.push((1, 0));
    pairs.push((0, 1));
    proof {
        assert(pairs@ =~= seq![(1usize, 0usize), (0usize, 1usize)]);
    }
    let trace = match TensorExpression::Mat(Box::new(inverse)).inner_prod_pairs(d, &pairs) {
        Err(e) => {
            return Err(e);
        },
        Ok(trace) => trace,
    };
    let node = TensorExpression::Det(Box::new(m.duplicate()));
    proof {
        assert(node@ == TensorModel::Det(Box::new(m@)));
    }
    let determinant = Expression::Tensor(Box::new(node));
    proof {
        assert(determinant@ == ExprModel::Tensor(Box::new(node@)));
    }
    mul_scalar(determinant, trace, false)
}

impl MatrixExpression {
    /// The derivative of the inverse of `v`, given the derivative of `v`.
    pub fn diff_inv(v: &MatrixExpression, dv: Result<TensorExpression, AlgebraError>) -> (r: Result<
        TensorExpression,
        AlgebraError,
    >)
        ensures
            tensor_outcome(r) == inverse_rule(v@, tensor_outcome(dv)),
    {
        let d = match dv {
            Err(e) => {
                return Err(e);
            },
            Ok(d) => d,
        };
        let inverse = match v.duplicate().inv() {
            Err(e) => {
                return Err(e);
            },
            Ok(inverse) => inverse,
        };
        let mut once: Vec<(usize, usize)> = Vec::new();
        once.push((1, 0));
        proof {
            assert(once@ =~= seq![(1usize, 0usize)]);
        }
        let first = TensorExpression::Mat(Box::new(inverse.duplicate())).neg();
        let second = TensorExpression::Mat(Box::new(inverse));
        let left = match first.inner_prod_pairs(d, &once) {
            Err(e) => {
                return Err(e);
            },
            Ok(left) => left,
        };
        left.inner_prod_pairs(second, &once)
    }

    /// The derivative of the tree with respect to one name, the axes of the
    /// derivative standing from `offset` on.
    pub fn derivative_at(&self, name: &String, offset: usize) -> (r: Result<TensorExpression, AlgebraError>)
        ensures
            tensor_outcome(r) == d_matrix(self@, name@, offset as nat),
        decreases self,
    {
        match self {
            MatrixExpression::Mat(t) => t.derivative_at(name, offset),
            MatrixExpression::Constant(_) => Ok(TensorExpression::Zero),
            MatrixExpression::Transpose(v) => match v.derivative_at(name, offset) {
                Err(e) => Err(e),
                Ok(d) => Ok(
                    TensorExpression::Mat(Box::new(MatrixExpression::Mat(Box::new(d)).t())),
                ),
            },
            MatrixExpression::Inverse(v) => MatrixExpression::diff_inv(v, v.derivative_at(name, offset)),
            MatrixExpression::Determinant(v) => jacobi_of(v, v.derivative_at(name, offset)),
        }
    }

    /// The derivative of the tree with respect to one name; the axes of the
    /// derivative stand behind those of the tree.
    pub fn derivative(&self, name: &String) -> (r: Result<TensorExpression, AlgebraError>)
        ensures
            tensor_outcome(r) == d_matrix(self@, name@, matrix_sizes(self@).len()),
    {
        let offset = self.sizes().len();
        self.derivative_at(name, offset)
    }

    /// The derivatives of the tree with respect to each of `symbols`, in
    /// their order.
    pub fn differential(&self, symbols: &[&str]) -> (r: Result<Vec<TensorExpression>, AlgebraError>)
        ensures
            match r {
                Ok(list) => d_matrix_all(self@, names_view(symbols), 0, Seq::empty()) == Ok::<
                    Seq<TensorModel>,
                    AlgebraError,
                >(terms_view(list)),
                Err(e) => d_matrix_all(self@, names_view(symbols), 0, Seq::empty()) == Err::<
                    Seq<TensorModel>,
                    AlgebraError,
                >(e),
            },
    {
        let mut out: Vec<TensorExpression> = Vec::new();
        let mut i: usize = 0;
        proof {
            assert(terms_view(out) =~= Seq::<TensorModel>::empty());
        }
        while i < symbols.len()
            invariant
                i <= symbols.len(),
                d_matrix_all(self@, names_view(symbols), 0, Seq::empty()) == d_matrix_all(
                    self@,
                    names_view(symbols),
                    i as int,
                    terms_view(out),
                ),
            decreases symbols.len() - i,
        {
            let name = String::from_str(symbols[i]);
            let ghost before = terms_view(out);
            match self.derivative(&name) {
                Err(e) => {
                    return Err(e);
                },
                Ok(d) => {
                    out.push(d);
                    proof {
                        assert(terms_view(out) =~= before.push(d@));
                    }
                },
            }
            i += 1;
        }
        Ok(out)
    }
}

impl TensorExpression {
    /// The derivative of the negation of `v`.
    pub fn diff_neg(name: &String, v: &TensorExpression, offset: usize) -> (r: Result<
        TensorExpression,
        AlgebraError,
    >)
        ensures
            tensor_outcome(r) == lift_tensor_neg(d_tensor(v@, name@, offset as nat)),
    {
        tensor_negation_of(v.derivative_at(name, offset))
    }

    /// The derivative of the contraction of `terms` under
    /// `rank_combinations`: the sum, over the terms, of the contraction in
    /// which the derivative of the term stands in its place.
    pub fn diff_inner_prod(
        name: &String,
        terms: &Vec<TensorExpression>,
        rank_combinations: &Vec<RankCombination>,
        offset: usize,
    ) -> (r: Result<TensorExpression, AlgebraError>)
        ensures
            tensor_outcome(r) == leibniz_from(
                terms_view(*terms),
                combinations_view(*rank_combinations),
                name@,
                offset as nat,
                0,
                Ok(TensorModel::Zero),
            ),
        decreases terms,
    {
        let mut sum: Result<TensorExpression, AlgebraError> = Ok(TensorExpression::Zero);
        let mut i: usize = 0;
        while i < terms.len()
            invariant
                i <= terms.len(),
                leibniz_from(
                    terms_view(*terms),
                    combinations_view(*rank_combinations),
                    name@,
                    offset as nat,
                    0,
                    Ok(TensorModel::Zero),
                ) == leibniz_from(
                    terms_view(*terms),
                    combinations_view(*rank_combinations),
                    name@,
                    offset as nat,
                    i as int,
                    tensor_outcome(sum),
                ),
            decreases terms.len() - i,
        {
            let part = match terms[i].derivative_at(name, offset) {
                Err(e) => Err(e),
                Ok(d) => {
                    let mut changed = copy_terms(terms);
                    changed.set(i, d);
                    proof {
                        assert(terms_view(changed) =~= terms_view(*terms).update(i as int, d@));
                    }
                    contract_terms(&changed, rank_combinations)
                },
            };
            sum = tensor_sum_of(sum, part);
            i += 1;
        }
        sum
    }

    /// The derivative of the tree with respect to one name, the axes of the
    /// derivative standing from `offset` on.
    pub fn derivative_at(&self, name: &String, offset: usize) -> (r: Result<TensorExpression, AlgebraError>)
        ensures
            tensor_outcome(r) == d_tensor(self@, name@, offset as nat),
        decreases self,
    {
        match self {
            TensorExpression::Symbol(symbol, sizes) => symbol_derivative(
                symbol,
                sizes,
                name,
                offset,
            ),
            TensorExpression::Constant(_) => Ok(TensorExpression::Zero),
            TensorExpression::Zero => Ok(TensorExpression::Zero),
            TensorExpression::KroneckerDeltas(_) => Ok(TensorExpression::Zero),
            TensorExpression::Add(l, r) => tensor_sum_of(l.derivative_at(name, offset), r.derivative_at(name, offset)),
            TensorExpression::Sub(l, r) => tensor_difference_of(
                l.derivative_at(name, offset),
                r.derivative_at(name, offset),
            ),
            TensorExpression::MulScalarLhs(l, r) => {
                let first = scaled(Ok(r.duplicate()), l.derivative_at(name, offset), false);
                let second = scaled(r.derivative_at(name, offset), Ok(l.duplicate()), false);
                tensor_sum_of(first, second)
            },
            TensorExpression::MulScalarRhs(l, r) => {
                let first = scaled(l.derivative_at(name, offset), Ok(r.duplicate()), true);
                let second = scaled(Ok(l.duplicate()), r.derivative_at(name, offset), true);
                tensor_sum_of(first, second)
            },
            TensorExpression::Neg(v) => tensor_negation_of(v.derivative_at(name, offset)),
            TensorExpression::InnerProd { terms, rank_combinations } => {
                proof {
                    lemma_inner_prod_model(*self);
                }
                TensorExpression::diff_inner_prod(name, terms, rank_combinations, offset)
            },
            TensorExpression::Det(m) => jacobi_of(m, m.derivative_at(name, offset)),
            TensorExpression::Mat(m) => m.derivative_at(name, offset),
        }
    }

    /// The derivative of the tree with respect to one name; the axes of the
    /// derivative stand behind those of the tree.
    pub fn derivative(&self, name: &String) -> (r: Result<TensorExpression, AlgebraError>)
        ensures
            tensor_outcome(r) == d_tensor(self@, name@, tensor_sizes(self@).len()),
    {
        let offset = self.sizes().len();
        self.derivative_at(name, offset)
    }

    /// The derivatives of the tree with respect to each of `symbols`, in
    /// their order.
    pub fn differential(&self, symbols: &[&str]) -> (r: Result<Vec<TensorExpression>, AlgebraError>)
        ensures
            match r {
                Ok(list) => d_tensor_all(self@, names_view(symbols), 0, Seq::empty()) == Ok::<
                    Seq<TensorModel>,
                    AlgebraError,
                >(terms_view(list)),
                Err(e) => d_tensor_all(self@, names_view(symbols), 0, Seq::empty()) == Err::<
                    Seq<TensorModel>,
                    AlgebraError,
                >(e),
            },
    {
        let mut out: Vec<TensorExpression> = Vec::new();
        let mut i: usize = 0;
        proof {
            assert(terms_view(out) =~= Seq::<TensorModel>::empty());
        }
        while i < symbols.len()
            invariant
                i <= symbols.len(),
                d_tensor_all(self@, names_view(symbols), 0, Seq::empty()) == d_tensor_all(
                    self@,
                    names_view(symbols),
                    i as int,
                    terms_view(out),
                ),
            decreases symbols.len() - i,
        {
            let name = String::from_str(symbols[i]);
            let ghost before = terms_view(out);
            match self.derivative(&name) {
                Err(e) => {
                    return Err(e);
                },
                Ok(d) => {
                    out.push(d);
                    proof {
                        assert(terms_view(out) =~= before.push(d@));
                    }
                },
            }
            i += 1;
        }
        Ok(out)
    }
}

impl TranscendentalExpression {
    /// The derivative of the tree with respect to one name, the axes of the
    /// derivative standing from `offset` on.
    pub fn derivative_at(&self, name: &String, offset: usize) -> (r: Result<Expression, AlgebraError>)
        ensures
            expr_outcome(r) == d_trans(self@, name@, offset as nat),
        decreases self,
    {
        match self {
            TranscendentalExpression::Abs(u) => {
                let sign = u.duplicate().div(u.duplicate().abs());
                product_of(sign, u.derivative_at(name, offset))
            },
            TranscendentalExpression::Pow(b, e) => {
                let power = b.duplicate().pow(e.duplicate());
                let first = product_of(e.derivative_at(name, offset), Ok(b.duplicate().ln()));
                let second = quotient_of(
                    product_of(Ok(e.duplicate()), b.derivative_at(name, offset)),
                    Ok(b.duplicate()),
                );
                product_of(Ok(power), sum_of(first, second))
            },
            TranscendentalExpression::Exp(u) => product_of(
                Ok(u.duplicate().exp()),
                u.derivative_at(name, offset),
            ),
            TranscendentalExpression::Log(b, a) => {
                let first = quotient_of(
                    a.derivative_at(name, offset),
                    a.duplicate().mul(b.duplicate().ln()),
                );
                let above = product_of(Ok(a.duplicate().ln()), b.derivative_at(name, offset));
                let below = product_of(
                    Ok(b.duplicate()),
                    b.duplicate().ln().mul(b.duplicate().ln()),
                );
                difference_of(first, quotient_of(above, below))
            },
            TranscendentalExpression::Ln(u) => quotient_of(u.derivative_at(name, offset), Ok(u.duplicate())),
            TranscendentalExpression::Sin(u) => product_of(
                Ok(u.duplicate().cos()),
                u.derivative_at(name, offset),
            ),
            TranscendentalExpression::Cos(u) => product_of(
                Ok(u.duplicate().sin().neg()),
                u.derivative_at(name, offset),
            ),
            TranscendentalExpression::Tan(u) => quotient_of(
                u.derivative_at(name, offset),
                u.duplicate().cos().mul(u.duplicate().cos()),
            ),
        }
    }
}

impl TranscendentalExpression {
    /// The derivative of the function with respect to one name.
    pub fn derivative(&self, name: &String) -> (r: Result<Expression, AlgebraError>)
        ensures
            expr_outcome(r) == d_trans(self@, name@, trans_sizes(self@).len()),
    {
        let offset = self.sizes().len();
        self.derivative_at(name, offset)
    }
}

impl Expression {
    /// The derivative of the negation of `v`.
    pub fn diff_neg(v: &Expression, name: &String, offset: usize) -> (r: Result<
        Expression,
        AlgebraError,
    >)
        ensures
            expr_outcome(r) == lift_neg(d_expr(v@, name@, offset as nat)),
    {
        negation_of(v.derivative_at(name, offset))
    }

    /// The derivative of the difference of `l` and `r`.
    pub fn diff_sub(l: &Expression, r: &Expression, name: &String, offset: usize) -> (out: Result<
        Expression,
        AlgebraError,
    >)
        ensures
            expr_outcome(out) == lift_sub(
                d_expr(l@, name@, offset as nat),
                d_expr(r@, name@, offset as nat),
            ),
    {
        difference_of(l.derivative_at(name, offset), r.derivative_at(name, offset))
    }

    /// The derivative of a symbol with the shape `sizes`.
    pub fn diff_variable(
        symbol: &String,
        sizes: &Vec<crate::size::Size>,
        name: &String,
        offset: usize,
    ) -> (r: Result<Expression, AlgebraError>)
        ensures
            expr_outcome(r) == d_expr(ExprModel::Symbol(symbol@, sizes@), name@, offset as nat),
    {
        if sizes.len() == 0 {
            if *symbol == *name {
                Ok(Expression::one())
            } else {
                Ok(Expression::zero())
            }
        } else {
            as_expression(symbol_derivative(symbol, sizes, name, offset))
        }
    }

    /// The derivative of the tree with respect to one name, the axes of the
    /// derivative standing from `offset` on.
    pub fn derivative_at(&self, name: &String, offset: usize) -> (r: Result<Expression, AlgebraError>)
        ensures
            expr_outcome(r) == d_expr(self@, name@, offset as nat),
        decreases self,
    {
        match self {
            Expression::Symbol(symbol, sizes) => Expression::diff_variable(
                symbol,
                sizes,
                name,
                offset,
            ),
            Expression::Constant(c) => match c {
                ConstantValue::Scalar(_) => Ok(Expression::zero()),
                _ => as_expression(Ok(TensorExpression::Zero)),
            },
            Expression::Add(l, r) => sum_of(l.derivative_at(name, offset), r.derivative_at(name, offset)),
            Expression::Sub(l, r) => difference_of(l.derivative_at(name, offset), r.derivative_at(name, offset)),
            Expression::Mul(l, r) => {
                let first = product_of(l.derivative_at(name, offset), Ok(r.duplicate()));
                let second = product_of(Ok(l.duplicate()), r.derivative_at(name, offset));
                sum_of(first, second)
            },
            Expression::Div(l, r) => {
                let first = quotient_of(l.derivative_at(name, offset), Ok(r.duplicate()));
                let above = product_of(Ok(l.duplicate()), r.derivative_at(name, offset));
                let below = r.duplicate().mul(r.duplicate());
                difference_of(first, quotient_of(above, below))
            },
            Expression::Neg(v) => negation_of(v.derivative_at(name, offset)),
            Expression::Pow(b, q) => match q.lessened() {
                None => Err(AlgebraError::Unimplemented),
                Some(lower) => {
                    let factor = Expression::Constant(
                        ConstantValue::Scalar(Scalar::from_ratio(q.num, q.den)),
                    );
                    let rest = b.duplicate().powr(lower);
                    product_of(factor.mul(rest), b.derivative_at(name, offset))
                },
            },
            Expression::Transcendental(t) => t.derivative_at(name, offset),
            Expression::Tensor(t) => as_expression(t.derivative_at(name, offset)),
            Expression::Matrix(m) => as_expression(m.derivative_at(name, offset)),
            Expression::TensorElement(_, _) => Err(AlgebraError::Unimplemented),
        }
    }

    /// The derivative of the tree with respect to one name; the axes of the
    /// derivative stand behind those of the tree.
    pub fn derivative(&self, name: &String) -> (r: Result<Expression, AlgebraError>)
        ensures
            expr_outcome(r) == d_expr(self@, name@, expr_sizes(self@).len()),
    {
        let offset = self.sizes().len();
        self.derivative_at(name, offset)
    }

    /// The derivatives of the tree with respect to each of `symbols`, in
    /// their order.
    pub fn differential(&self, symbols: &[&str]) -> (r: Result<Vec<Expression>, AlgebraError>)
        ensures
            match r {
                Ok(list) => d_expr_all(self@, names_view(symbols), 0, Seq::empty()) == Ok::<
                    Seq<ExprModel>,
                    AlgebraError,
                >(exprs_view(list)),
                Err(e) => d_expr_all(self@, names_view(symbols), 0, Seq::empty()) == Err::<
                    Seq<ExprModel>,
                    AlgebraError,
                >(e),
            },
    {
        let mut out: Vec<Expression> = Vec::new();
        let mut i: usize = 0;
        proof {
            assert(exprs_view(out) =~= Seq::<ExprModel>::empty());
        }
        while i < symbols.len()
            invariant
                i <= symbols.len(),
                d_expr_all(self@, names_view(symbols), 0, Seq::empty()) == d_expr_all(
                    self@,
                    names_view(symbols),
                    i as int,
                    exprs_view(out),
                ),
            decreases symbols.len() - i,
        {
            let name = String::from_str(symbols[i]);
            let ghost before = exprs_view(out);
            match self.derivative(&name) {
                Err(e) => {
                    return Err(e);
                },
                Ok(d) => {
                    out.push(d);
                    proof {
                        assert(exprs_view(out) =~= before.push(d@));
                    }
                },
            }
            i += 1;
        }
        Ok(out)
    }
}

} // verus!
