//! The names of the symbols of a tree, each once, in the order in which the
//! tree first names them.

use crate::expression::lemma_inner_prod_model;
use crate::expression::terms_view;
use crate::expression::ExprModel;
use crate::expression::Expression;
use crate::expression::MatrixExpression;
use crate::expression::MatrixModel;
use crate::expression::TensorExpression;
use crate::expression::TensorModel;
use crate::expression::TransModel;
use crate::expression::TranscendentalExpression;
use vstd::prelude::*;

verus! {

/// The list with `name` behind it, unless the list holds it already.
pub open spec fn with_name(seen: Seq<Seq<char>>, name: Seq<char>) -> Seq<Seq<char>> {
    if seen.contains(name) {
        seen
    } else {
        seen.push(name)
    }
}

/// The names of a scalar-valued tree, behind those seen before.
pub open spec fn names_expr(e: ExprModel, seen: Seq<Seq<char>>) -> Seq<Seq<char>>
    decreases e, 0nat,
{
    match e {
        ExprModel::Symbol(name, _) => with_name(seen, name),
        ExprModel::Constant(_) => seen,
        ExprModel::Add(l, r) => names_expr(*r, names_expr(*l, seen)),
        ExprModel::Sub(l, r) => names_expr(*r, names_expr(*l, seen)),
        ExprModel::Mul(l, r) => names_expr(*r, names_expr(*l, seen)),
        ExprModel::Div(l, r) => names_expr(*r, names_expr(*l, seen)),
        ExprModel::Neg(v) => names_expr(*v, seen),
        ExprModel::Pow(b, _) => names_expr(*b, seen),
        ExprModel::Transcendental(t) => names_trans(*t, seen),
        ExprModel::Tensor(t) => names_tensor(*t, seen),
        ExprModel::Matrix(m) => names_matrix(*m, seen),
        ExprModel::TensorElement(t, _) => names_tensor(*t, seen),
    }
}

/// The names of a transcendental function, behind those seen before.
pub open spec fn names_trans(t: TransModel, seen: Seq<Seq<char>>) -> Seq<Seq<char>>
    decreases t, 0nat,
{
    match t {
        TransModel::Abs(u) => names_expr(*u, seen),
        TransModel::Pow(b, e) => names_expr(*e, names_expr(*b, seen)),
        TransModel::Exp(u) => names_expr(*u, seen),
        TransModel::Log(b, a) => names_expr(*a, names_expr(*b, seen)),
        TransModel::Ln(u) => names_expr(*u, seen),
        TransModel::Sin(u) => names_expr(*u, seen),
        TransModel::Cos(u) => names_expr(*u, seen),
        TransModel::Tan(u) => names_expr(*u, seen),
    }
}

/// The names of the terms from `i` on, behind those seen before.
pub open spec fn names_terms(terms: Seq<TensorModel>, i: int, seen: Seq<Seq<char>>) -> Seq<
    Seq<char>,
>
    decreases terms, terms.len() - i,
{
    if i < 0 || i >= terms.len() {
        seen
    } else {
        names_terms(terms, i + 1, names_tensor(terms[i], seen))
    }
}

/// The names of a tensor-valued tree, behind those seen before.
pub open spec fn names_tensor(t: TensorModel, seen: Seq<Seq<char>>) -> Seq<Seq<char>>
    decreases t, 0nat,
{
    match t {
        TensorModel::Symbol(name, _) => with_name(seen, name),
        TensorModel::Constant(_) => seen,
        TensorModel::Zero => seen,
        TensorModel::KroneckerDeltas(_) => seen,
        TensorModel::Add(l, r) => names_tensor(*r, names_tensor(*l, seen)),
        TensorModel::Sub(l, r) => names_tensor(*r, names_tensor(*l, seen)),
        TensorModel::MulScalarLhs(l, r) => names_tensor(*r, names_expr(*l, seen)),
        TensorModel::MulScalarRhs(l, r) => names_expr(*r, names_tensor(*l, seen)),
        TensorModel::Neg(v) => names_tensor(*v, seen),
        TensorModel::InnerProd { terms, rank_combinations } => names_terms(terms, 0, seen),
        TensorModel::Det(m) => names_matrix(*m, seen),
        TensorModel::Mat(m) => names_matrix(*m, seen),
    }
}

/// The names of a matrix-valued tree, behind those seen before.
pub open spec fn names_matrix(m: MatrixModel, seen: Seq<Seq<char>>) -> Seq<Seq<char>>
    decreases m, 0nat,
{
    match m {
        MatrixModel::Mat(t) => names_tensor(*t, seen),
        MatrixModel::Constant(_) => seen,
        MatrixModel::Transpose(v) => names_matrix(*v, seen),
        MatrixModel::Inverse(v) => names_matrix(*v, seen),
        MatrixModel::Determinant(v) => names_matrix(*v, seen),
    }
}

/// The contents of a list of names.
pub open spec fn strings_view(list: Vec<String>) -> Seq<Seq<char>> {
    Seq::new(list.len() as nat, |k: int| list[k]@)
}

/// The list with `name` behind it, unless the list holds it already.
pub fn add_name(seen: Vec<String>, name: &String) -> (r: Vec<String>)
    ensures
        strings_view(r) == with_name(strings_view(seen), name@),
{
    let mut k: usize = 0;
    while k < seen.len()
        invariant
            k <= seen.len(),
            forall|j: int| 0 <= j < k ==> strings_view(seen)[j] != name@,
        decreases seen.len() - k,
    {
        if seen[k] == *name {
            proof {
                assert(strings_view(seen)[k as int] == name@);
            }
            return seen;
        }
        k += 1;
    }
    let ghost before = strings_view(seen);
    let mut out = seen;
    out.push(name.clone());
    proof {
        assert(strings_view(out) =~= before.push(name@));
    }
    out
}

impl Expression {
    /// The names of the symbols of the tree, each once, in the order in
    /// which the tree first names them.
    pub fn variable_ids(&self) -> (r: Vec<String>)
        ensures
            strings_view(r) == names_expr(self@, Seq::empty()),
    {
        let seen: Vec<String> = Vec::new();
        proof {
            assert(strings_view(seen) =~= Seq::<Seq<char>>::empty());
        }
        self.collect_ids(seen)
    }

    /// The names of the tree, behind those seen before.
    pub fn collect_ids(&self, seen: Vec<String>) -> (r: Vec<String>)
        ensures
            strings_view(r) == names_expr(self@, strings_view(seen)),
        decreases self,
    {
        match self {
            Expression::Symbol(name, _) => add_name(seen, name),
            Expression::Constant(_) => seen,
            Expression::Add(l, r) => r.collect_ids(l.collect_ids(seen)),
            Expression::Sub(l, r) => r.collect_ids(l.collect_ids(seen)),
            Expression::Mul(l, r) => r.collect_ids(l.collect_ids(seen)),
            Expression::Div(l, r) => r.collect_ids(l.collect_ids(seen)),
            Expression::Neg(v) => v.collect_ids(seen),
            Expression::Pow(b, _) => b.collect_ids(seen),
            Expression::Transcendental(t) => t.collect_ids(seen),
            Expression::Tensor(t) => t.collect_ids(seen),
            Expression::Matrix(m) => m.collect_ids(seen),
            Expression::TensorElement(t, _) => t.collect_ids(seen),
        }
    }
}

impl TranscendentalExpression {
    /// The names of the tree, behind those seen before.
    pub fn collect_ids(&self, seen: Vec<String>) -> (r: Vec<String>)
        ensures
            strings_view(r) == names_trans(self@, strings_view(seen)),
        decreases self,
    {
        match self {
            TranscendentalExpression::Abs(u) => u.collect_ids(seen),
            TranscendentalExpression::Pow(b, e) => e.collect_ids(b.collect_ids(seen)),
            TranscendentalExpression::Exp(u) => u.collect_ids(seen),
            TranscendentalExpression::Log(b, a) => a.collect_ids(b.collect_ids(seen)),
            TranscendentalExpression::Ln(u) => u.collect_ids(seen),
            TranscendentalExpression::Sin(u) => u.collect_ids(seen),
            TranscendentalExpression::Cos(u) => u.collect_ids(seen),
            TranscendentalExpression::Tan(u) => u.collect_ids(seen),
        }
    }
}

impl TensorExpression {
    /// The names of the terms, behind those seen before.
    pub fn collect_terms(terms: &Vec<TensorExpression>, seen: Vec<String>) -> (r: Vec<String>)
        ensures
            strings_view(r) == names_terms(terms_view(*terms), 0, strings_view(seen)),
        decreases terms,
    {
        let ghost start = strings_view(seen);
        let mut names = seen;
        let mut i: usize = 0;
        while i < terms.len()
            invariant
                i <= terms.len(),
                names_terms(terms_view(*terms), 0, start) == names_terms(
                    terms_view(*terms),
                    i as int,
                    strings_view(names),
                ),
            decreases terms.len() - i,
        {
            names = terms[i].collect_ids(names);
            i += 1;
        }
        names
    }

    /// The names of the tree, behind those seen before.
    pub fn collect_ids(&self, seen: Vec<String>) -> (r: Vec<String>)
        ensures
            strings_view(r) == names_tensor(self@, strings_view(seen)),
        decreases self,
    {
        match self {
            TensorExpression::Symbol(name, _) => add_name(seen, name),
            TensorExpression::Constant(_) => seen,
            TensorExpression::Zero => seen,
            TensorExpression::KroneckerDeltas(_) => seen,
            TensorExpression::Add(l, r) => r.collect_ids(l.collect_ids(seen)),
            TensorExpression::Sub(l, r) => r.collect_ids(l.collect_ids(seen)),
            TensorExpression::MulScalarLhs(l, r) => r.collect_ids(l.collect_ids(seen)),
            TensorExpression::MulScalarRhs(l, r) => r.collect_ids(l.collect_ids(seen)),
            TensorExpression::Neg(v) => v.collect_ids(seen),
            TensorExpression::InnerProd { terms, rank_combinations } => {
                proof {
                    lemma_inner_prod_model(*self);
                }
                TensorExpression::collect_terms(terms, seen)
            },
            TensorExpression::Det(m) => m.collect_ids(seen),
            TensorExpression::Mat(m) => m.collect_ids(seen),
        }
    }
}

impl MatrixExpression {
    /// The names of the tree, behind those seen before.
    pub fn collect_ids(&self, seen: Vec<String>) -> (r: Vec<String>)
        ensures
            strings_view(r) == names_matrix(self@, strings_view(seen)),
        decreases self,
    {
        match self {
            MatrixExpression::Mat(t) => t.collect_ids(seen),
            MatrixExpression::Constant(_) => seen,
            MatrixExpression::Transpose(v) => v.collect_ids(seen),
            MatrixExpression::Inverse(v) => v.collect_ids(seen),
            MatrixExpression::Determinant(v) => v.collect_ids(seen),
        }
    }
}

} // verus!
