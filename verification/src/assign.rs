//! Substitution: every symbol that has a binding is replaced by its
//! constant, and the tree is rebuilt with the simplifying constructors, so
//! that arithmetic on constants is folded at once.  A symbol without a
//! binding stays as it is.

use crate::constant_value::tensor_dimensions;
use crate::constant_value::ConstantModel;
use crate::constant_value::ConstantValue;
use crate::constant_value::Scalar;
use crate::constant_value::ScalarModel;
use crate::contraction::contract_terms;
use crate::contraction::contraction;
use crate::differential::difference_of;
use crate::differential::lift_add;
use crate::differential::product_of;
use crate::differential::quotient_of;
use crate::differential::scaled;
use crate::differential::sum_of;
use crate::differential::tensor_difference_of;
use crate::differential::tensor_sum_of;
use crate::differential::lift_div;
use crate::differential::lift_mul;
use crate::differential::lift_neg;
use crate::differential::lift_scale;
use crate::differential::lift_sub;
use crate::differential::lift_tensor;
use crate::differential::lift_tensor_add;
use crate::differential::lift_tensor_neg;
use crate::differential::lift_tensor_sub;
use crate::error::AlgebraError;
use crate::expression::copy_index;
use crate::expression::expr_outcome;
use crate::expression::lemma_inner_prod_model;
use crate::expression::matrix_outcome;
use crate::expression::tensor_outcome;
use crate::expression::terms_view;
use crate::expression::ExprModel;
use crate::expression::Expression;
use crate::expression::MatrixExpression;
use crate::expression::MatrixModel;
use crate::expression::TensorExpression;
use crate::expression::TensorModel;
use crate::expression::TransModel;
use crate::expression::TranscendentalExpression;
use crate::provider::tensor_cell;
use crate::provider::tensor_element;
use crate::provider::tensor_shape;
use vstd::prelude::*;

verus! {

/// The names and constants of a list of bindings.
pub open spec fn bindings_view(bindings: Vec<(String, ConstantValue)>) -> Seq<
    (Seq<char>, ConstantModel),
> {
    Seq::new(bindings.len() as nat, |k: int| (bindings[k].0@, bindings[k].1@))
}

/// The constant of the first binding of `name` from `i` on.
pub open spec fn bound(bindings: Seq<(Seq<char>, ConstantModel)>, name: Seq<char>, i: int) -> Option<
    ConstantModel,
>
    decreases bindings.len() - i,
{
    if i < 0 || i >= bindings.len() {
        None
    } else if bindings[i].0 == name {
        Some(bindings[i].1)
    } else {
        bound(bindings, name, i + 1)
    }
}

/// Whether an index names a cell of a tensor of the given shape.
pub open spec fn index_within(index: Seq<usize>, shape: Seq<usize>) -> bool {
    &&& index.len() == shape.len()
    &&& forall|k: int| 0 <= k < index.len() ==> index[k] < shape[k]
}

/// The entry of a tensor-valued tree at an index: the cell of a numeric
/// tensor, which the index must name, and a projection node otherwise.
pub open spec fn element(t: TensorModel, index: Seq<usize>) -> Result<ExprModel, AlgebraError> {
    match t {
        TensorModel::Constant(c) => if index_within(index, tensor_shape(c)) {
            Ok(
                ExprModel::Constant(
                    ConstantModel::Scalar(ScalarModel::of(tensor_element(c, index))),
                ),
            )
        } else {
            Err(AlgebraError::IndexOutOfRange)
        },
        _ => Ok(ExprModel::TensorElement(Box::new(t), index)),
    }
}

/// The entry of an outcome.
pub open spec fn lift_element(t: Result<TensorModel, AlgebraError>, index: Seq<usize>) -> Result<
    ExprModel,
    AlgebraError,
> {
    match t {
        Err(e) => Err(e),
        Ok(x) => element(x, index),
    }
}

/// The tree with every bound symbol replaced.
pub open spec fn assign_expr(e: ExprModel, bindings: Seq<(Seq<char>, ConstantModel)>) -> Result<
    ExprModel,
    AlgebraError,
>
    decreases e, 0nat,
{
    match e {
        ExprModel::Symbol(name, _) => match bound(bindings, name, 0) {
            Some(c) => Ok(ExprModel::Constant(c)),
            None => Ok(e),
        },
        ExprModel::Constant(_) => Ok(e),
        ExprModel::Add(l, r) => lift_add(assign_expr(*l, bindings), assign_expr(*r, bindings)),
        ExprModel::Sub(l, r) => lift_sub(assign_expr(*l, bindings), assign_expr(*r, bindings)),
        ExprModel::Mul(l, r) => lift_mul(assign_expr(*l, bindings), assign_expr(*r, bindings)),
        ExprModel::Div(l, r) => lift_div(assign_expr(*l, bindings), assign_expr(*r, bindings)),
        ExprModel::Neg(v) => lift_neg(assign_expr(*v, bindings)),
        ExprModel::Pow(b, q) => match assign_expr(*b, bindings) {
            Err(x) => Err(x),
            Ok(base) => Ok(base.powr(q)),
        },
        ExprModel::Transcendental(t) => assign_trans(*t, bindings),
        ExprModel::Tensor(t) => lift_tensor(assign_tensor(*t, bindings)),
        ExprModel::Matrix(m) => match assign_matrix(*m, bindings) {
            Err(x) => Err(x),
            Ok(v) => Ok(ExprModel::Matrix(Box::new(v))),
        },
        ExprModel::TensorElement(t, index) => lift_element(assign_tensor(*t, bindings), index),
    }
}

/// The transcendental function with every bound symbol replaced.
pub open spec fn assign_trans(t: TransModel, bindings: Seq<(Seq<char>, ConstantModel)>) -> Result<
    ExprModel,
    AlgebraError,
>
    decreases t, 0nat,
{
    match t {
        TransModel::Abs(u) => match assign_expr(*u, bindings) {
            Err(x) => Err(x),
            Ok(v) => Ok(v.abs()),
        },
        TransModel::Pow(b, e) => match (assign_expr(*b, bindings), assign_expr(*e, bindings)) {
            (Err(x), _) => Err(x),
            (Ok(_), Err(x)) => Err(x),
            (Ok(p), Ok(q)) => Ok(p.pow(q)),
        },
        TransModel::Exp(u) => match assign_expr(*u, bindings) {
            Err(x) => Err(x),
            Ok(v) => Ok(v.exp()),
        },
        TransModel::Log(b, a) => match (assign_expr(*b, bindings), assign_expr(*a, bindings)) {
            (Err(x), _) => Err(x),
            (Ok(_), Err(x)) => Err(x),
            (Ok(p), Ok(q)) => Ok(p.log(q)),
        },
        TransModel::Ln(u) => match assign_expr(*u, bindings) {
            Err(x) => Err(x),
            Ok(v) => Ok(v.ln()),
        },
        TransModel::Sin(u) => match assign_expr(*u, bindings) {
            Err(x) => Err(x),
            Ok(v) => Ok(v.sin()),
        },
        TransModel::Cos(u) => match assign_expr(*u, bindings) {
            Err(x) => Err(x),
            Ok(v) => Ok(v.cos()),
        },
        TransModel::Tan(u) => match assign_expr(*u, bindings) {
            Err(x) => Err(x),
            Ok(v) => Ok(v.tan()),
        },
    }
}

/// The terms from `i` on with every bound symbol replaced, behind `done`.
pub open spec fn assign_terms(
    terms: Seq<TensorModel>,
    bindings: Seq<(Seq<char>, ConstantModel)>,
    i: int,
    done: Seq<TensorModel>,
) -> Result<Seq<TensorModel>, AlgebraError>
    decreases terms, terms.len() - i,
{
    if i < 0 || i >= terms.len() {
        Ok(done)
    } else {
        match assign_tensor(terms[i], bindings) {
            Err(x) => Err(x),
            Ok(t) => assign_terms(terms, bindings, i + 1, done.push(t)),
        }
    }
}

/// The tensor-valued tree with every bound symbol replaced.  A symbol takes
/// a tensor or a matrix; a scalar does not fit it.
pub open spec fn assign_tensor(t: TensorModel, bindings: Seq<(Seq<char>, ConstantModel)>) -> Result<
    TensorModel,
    AlgebraError,
>
    decreases t, 0nat,
{
    match t {
        TensorModel::Symbol(name, _) => match bound(bindings, name, 0) {
            Some(ConstantModel::Tensor(c)) => Ok(TensorModel::Constant(c)),
            Some(ConstantModel::Matrix(m)) => Ok(
                TensorModel::Mat(Box::new(MatrixModel::Constant(m))),
            ),
            Some(ConstantModel::Scalar(_)) => Err(AlgebraError::VariantMismatch),
            None => Ok(t),
        },
        TensorModel::Constant(_) => Ok(t),
        TensorModel::Zero => Ok(t),
        TensorModel::KroneckerDeltas(_) => Ok(t),
        TensorModel::Add(l, r) => lift_tensor_add(
            assign_tensor(*l, bindings),
            assign_tensor(*r, bindings),
        ),
        TensorModel::Sub(l, r) => lift_tensor_sub(
            assign_tensor(*l, bindings),
            assign_tensor(*r, bindings),
        ),
        TensorModel::MulScalarLhs(l, r) => lift_scale(
            assign_tensor(*r, bindings),
            assign_expr(*l, bindings),
            false,
        ),
        TensorModel::MulScalarRhs(l, r) => lift_scale(
            assign_tensor(*l, bindings),
            assign_expr(*r, bindings),
            true,
        ),
        TensorModel::Neg(v) => lift_tensor_neg(assign_tensor(*v, bindings)),
        TensorModel::InnerProd { terms, rank_combinations } => match assign_terms(
            terms,
            bindings,
            0,
            Seq::empty(),
        ) {
            Err(x) => Err(x),
            Ok(assigned) => contraction(assigned, rank_combinations),
        },
        TensorModel::Det(m) => match assign_matrix(*m, bindings) {
            Err(x) => Err(x),
            Ok(v) => Ok(TensorModel::Det(Box::new(v))),
        },
        TensorModel::Mat(m) => match assign_matrix(*m, bindings) {
            Err(x) => Err(x),
            Ok(v) => Ok(TensorModel::Mat(Box::new(v))),
        },
    }
}

/// The matrix-valued tree with every bound symbol replaced.
pub open spec fn assign_matrix(m: MatrixModel, bindings: Seq<(Seq<char>, ConstantModel)>) -> Result<
    MatrixModel,
    AlgebraError,
>
    decreases m, 0nat,
{
    match m {
        MatrixModel::Mat(t) => match assign_tensor(*t, bindings) {
            Err(x) => Err(x),
            Ok(v) => Ok(MatrixModel::Mat(Box::new(v))),
        },
        MatrixModel::Constant(_) => Ok(m),
        MatrixModel::Transpose(v) => match assign_matrix(*v, bindings) {
            Err(x) => Err(x),
            Ok(w) => Ok(w.t()),
        },
        MatrixModel::Inverse(v) => match assign_matrix(*v, bindings) {
            Err(x) => Err(x),
            Ok(w) => w.inv(),
        },
        MatrixModel::Determinant(v) => match assign_matrix(*v, bindings) {
            Err(x) => Err(x),
            Ok(w) => Ok(w.det()),
        },
    }
}

/// The constant of the first binding of `name`.
pub fn lookup(bindings: &Vec<(String, ConstantValue)>, name: &String) -> (r: Option<ConstantValue>)
    ensures
        match r {
            Some(c) => bound(bindings_view(*bindings), name@, 0) == Some(c@),
            None => bound(bindings_view(*bindings), name@, 0) is None,
        },
{
    let mut i: usize = 0;
    while i < bindings.len()
        invariant
            i <= bindings.len(),
            bound(bindings_view(*bindings), name@, 0) == bound(
                bindings_view(*bindings),
                name@,
                i as int,
            ),
        decreases bindings.len() - i,
    {
        if bindings[i].0 == *name {
            return Some(bindings[i].1.duplicate());
        }
        i += 1;
    }
    None
}

/// Whether an index names a cell of a tensor of the given shape.
pub fn is_index_within(index: &Vec<usize>, shape: &Vec<usize>) -> (r: bool)
    ensures
        r == index_within(index@, shape@),
{
    if index.len() != shape.len() {
        return false;
    }
    let mut k: usize = 0;
    while k < index.len()
        invariant
            k <= index.len(),
            index.len() == shape.len(),
            forall|j: int| 0 <= j < k ==> index@[j] < shape@[j],
        decreases index.len() - k,
    {
        if index[k] >= shape[k] {
            return false;
        }
        k += 1;
    }
    true
}

impl Expression {
    /// The entry of a tensor-valued tree at an index.
    pub fn element(t: TensorExpression, index: Vec<usize>) -> (r: Result<Expression, AlgebraError>)
        ensures
            expr_outcome(r) == element(t@, index@),
    {
        match t {
            TensorExpression::Constant(c) => {
                let c = c.value();
                let shape = tensor_dimensions(c);
                if is_index_within(&index, &shape) {
                    let cell = tensor_cell(c, &index);
                    Ok(Expression::Constant(ConstantValue::Scalar(Scalar::classified(cell))))
                } else {
                    Err(AlgebraError::IndexOutOfRange)
                }
            },
            other => Ok(Expression::TensorElement(Box::new(other), index)),
        }
    }

    /// The tree with every symbol that `bindings` names replaced by its
    /// constant, the first binding of a name counting.
    pub fn assign(&self, bindings: &Vec<(String, ConstantValue)>) -> (r: Result<
        Expression,
        AlgebraError,
    >)
        ensures
            expr_outcome(r) == assign_expr(self@, bindings_view(*bindings)),
        decreases self,
    {
        match self {
            Expression::Symbol(name, _) => match lookup(bindings, name) {
                Some(c) => Ok(Expression::Constant(c)),
                None => Ok(self.duplicate()),
            },
            Expression::Constant(_) => Ok(self.duplicate()),
            Expression::Add(l, r) => sum_of(l.assign(bindings), r.assign(bindings)),
            Expression::Sub(l, r) => difference_of(l.assign(bindings), r.assign(bindings)),
            Expression::Mul(l, r) => product_of(l.assign(bindings), r.assign(bindings)),
            Expression::Div(l, r) => quotient_of(l.assign(bindings), r.assign(bindings)),
            Expression::Neg(v) => match v.assign(bindings) {
                Err(x) => Err(x),
                Ok(w) => Ok(w.neg()),
            },
            Expression::Pow(b, q) => match b.assign(bindings) {
                Err(x) => Err(x),
                Ok(base) => Ok(base.powr(*q)),
            },
            Expression::Transcendental(t) => t.assign(bindings),
            Expression::Tensor(t) => match t.assign(bindings) {
                Err(x) => Err(x),
                Ok(v) => Ok(Expression::Tensor(Box::new(v))),
            },
            Expression::Matrix(m) => match m.assign(bindings) {
                Err(x) => Err(x),
                Ok(v) => Ok(Expression::Matrix(Box::new(v))),
            },
            Expression::TensorElement(t, index) => match t.assign(bindings) {
                Err(x) => Err(x),
                Ok(v) => Expression::element(v, copy_index(index)),
            },
        }
    }

    /// The tree with every symbol that `values` names replaced by its
    /// constant.
    pub fn evaluate(&self, values: &Vec<(String, ConstantValue)>) -> (r: Result<
        Expression,
        AlgebraError,
    >)
        ensures
            expr_outcome(r) == assign_expr(self@, bindings_view(*values)),
    {
        self.assign(values)
    }
}

impl TranscendentalExpression {
    /// The function with every bound symbol replaced.
    pub fn assign(&self, bindings: &Vec<(String, ConstantValue)>) -> (r: Result<
        Expression,
        AlgebraError,
    >)
        ensures
            expr_outcome(r) == assign_trans(self@, bindings_view(*bindings)),
        decreases self,
    {
        match self {
            TranscendentalExpression::Abs(u) => match u.assign(bindings) {
                Err(x) => Err(x),
                Ok(v) => Ok(v.abs()),
            },
            TranscendentalExpression::Pow(b, e) => match (b.assign(bindings), e.assign(bindings)) {
                (Err(x), _) => Err(x),
                (Ok(_), Err(x)) => Err(x),
                (Ok(p), Ok(q)) => Ok(p.pow(q)),
            },
            TranscendentalExpression::Exp(u) => match u.assign(bindings) {
                Err(x) => Err(x),
                Ok(v) => Ok(v.exp()),
            },
            TranscendentalExpression::Log(b, a) => match (b.assign(bindings), a.assign(bindings)) {
                (Err(x), _) => Err(x),
                (Ok(_), Err(x)) => Err(x),
                (Ok(p), Ok(q)) => Ok(p.log(q)),
            },
            TranscendentalExpression::Ln(u) => match u.assign(bindings) {
                Err(x) => Err(x),
                Ok(v) => Ok(v.ln()),
            },
            TranscendentalExpression::Sin(u) => match u.assign(bindings) {
                Err(x) => Err(x),
                Ok(v) => Ok(v.sin()),
            },
            TranscendentalExpression::Cos(u) => match u.assign(bindings) {
                Err(x) => Err(x),
                Ok(v) => Ok(v.cos()),
            },
            TranscendentalExpression::Tan(u) => match u.assign(bindings) {
                Err(x) => Err(x),
                Ok(v) => Ok(v.tan()),
            },
        }
    }
}

impl TensorExpression {
    /// The terms with every bound symbol replaced.
    pub fn assign_all(terms: &Vec<TensorExpression>, bindings: &Vec<(String, ConstantValue)>) -> (r:
        Result<Vec<TensorExpression>, AlgebraError>)
        ensures
            match r {
                Ok(list) => assign_terms(
                    terms_view(*terms),
                    bindings_view(*bindings),
                    0,
                    Seq::empty(),
                ) == Ok::<Seq<TensorModel>, AlgebraError>(terms_view(list)),
                Err(e) => assign_terms(
                    terms_view(*terms),
                    bindings_view(*bindings),
                    0,
                    Seq::empty(),
                ) == Err::<Seq<TensorModel>, AlgebraError>(e),
            },
        decreases terms,
    {
        let mut assigned: Vec<TensorExpression> = Vec::new();
        let mut i: usize = 0;
        proof {
            assert(terms_view(assigned) =~= Seq::<TensorModel>::empty());
        }
        while i < terms.len()
            invariant
                i <= terms.len(),
                assign_terms(terms_view(*terms), bindings_view(*bindings), 0, Seq::empty())
                    == assign_terms(
                    terms_view(*terms),
                    bindings_view(*bindings),
                    i as int,
                    terms_view(assigned),
                ),
            decreases terms.len() - i,
        {
            let ghost before = terms_view(assigned);
            match terms[i].assign(bindings) {
                Err(x) => {
                    return Err(x);
                },
                Ok(t) => {
                    assigned.push(t);
                    proof {
                        assert(terms_view(assigned) =~= before.push(t@));
                    }
                },
            }
            i += 1;
        }
        Ok(assigned)
    }

    /// The symbol `name` with its binding in its place, if it has one.
    fn assign_symbol(&self, name: &String, bindings: &Vec<(String, ConstantValue)>) -> (r: Result<
        TensorExpression,
        AlgebraError,
    >)
        requires
            self@ is Symbol,
            self@->Symbol_0 == name@,
        ensures
            tensor_outcome(r) == assign_tensor(self@, bindings_view(*bindings)),
    {
        match lookup(bindings, name) {
            Some(ConstantValue::Tensor(c)) => Ok(TensorExpression::Constant(c)),
            Some(ConstantValue::Matrix(m)) => {
                let constant = MatrixExpression::Constant(m);
                proof {
                    assert(constant@ == MatrixModel::Constant(m@));
                }
                Ok(TensorExpression::Mat(Box::new(constant)))
            },
            Some(ConstantValue::Scalar(_)) => Err(AlgebraError::VariantMismatch),
            None => Ok(self.duplicate()),
        }
    }

    /// The tree with every bound symbol replaced.
    #[verifier::rlimit(40)]
    pub fn assign(&self, bindings: &Vec<(String, ConstantValue)>) -> (r: Result<
        TensorExpression,
        AlgebraError,
    >)
        ensures
            tensor_outcome(r) == assign_tensor(self@, bindings_view(*bindings)),
        decreases self,
    {
        match self {
            TensorExpression::Symbol(name, _) => self.assign_symbol(name, bindings),
            TensorExpression::Constant(_) => Ok(self.duplicate()),
            TensorExpression::Zero => Ok(self.duplicate()),
            TensorExpression::KroneckerDeltas(_) => Ok(self.duplicate()),
            TensorExpression::Add(l, r) => tensor_sum_of(l.assign(bindings), r.assign(bindings)),
            TensorExpression::Sub(l, r) => tensor_difference_of(
                l.assign(bindings),
                r.assign(bindings),
            ),
            TensorExpression::MulScalarLhs(l, r) => scaled(
                r.assign(bindings),
                l.assign(bindings),
                false,
            ),
            TensorExpression::MulScalarRhs(l, r) => scaled(
                l.assign(bindings),
                r.assign(bindings),
                true,
            ),
            TensorExpression::Neg(v) => match v.assign(bindings) {
                Err(x) => Err(x),
                Ok(w) => Ok(w.neg()),
            },
            TensorExpression::InnerProd { terms, rank_combinations } => {
                proof {
                    lemma_inner_prod_model(*self);
                }
                match TensorExpression::assign_all(terms, bindings) {
                    Err(x) => Err(x),
                    Ok(assigned) => contract_terms(&assigned, rank_combinations),
                }
            },
            TensorExpression::Det(m) => match m.assign(bindings) {
                Err(x) => Err(x),
                Ok(v) => Ok(TensorExpression::Det(Box::new(v))),
            },
            TensorExpression::Mat(m) => match m.assign(bindings) {
                Err(x) => Err(x),
                Ok(v) => Ok(TensorExpression::Mat(Box::new(v))),
            },
        }
    }
}

impl MatrixExpression {
    /// The tree with every bound symbol replaced.
    pub fn assign(&self, bindings: &Vec<(String, ConstantValue)>) -> (r: Result<
        MatrixExpression,
        AlgebraError,
    >)
        ensures
            matrix_outcome(r) == assign_matrix(self@, bindings_view(*bindings)),
        decreases self,
    {
        match self {
            MatrixExpression::Mat(t) => match t.assign(bindings) {
                Err(x) => Err(x),
                Ok(v) => Ok(MatrixExpression::Mat(Box::new(v))),
            },
            MatrixExpression::Constant(_) => Ok(self.duplicate()),
            MatrixExpression::Transpose(v) => match v.assign(bindings) {
                Err(x) => Err(x),
                Ok(w) => Ok(w.t()),
            },
            MatrixExpression::Inverse(v) => match v.assign(bindings) {
                Err(x) => Err(x),
                Ok(w) => w.inv(),
            },
            MatrixExpression::Determinant(v) => match v.assign(bindings) {
                Err(x) => Err(x),
                Ok(w) => Ok(w.det()),
            },
        }
    }
}

} // verus!
