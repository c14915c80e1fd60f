//! The source-text backend: a tree as an expression in call syntax, to be
//! placed in numeric code.
//!
//! An operand of an operator or a method stands between round brackets
//! where it is itself an operation.  The cells of a numeric tensor or
//! matrix cannot be written out: a tree that holds one has no source text.

use crate::constant_value::ConstantModel;
use crate::constant_value::ConstantValue;
use crate::error::AlgebraError;
use crate::expression::combinations_view;
use crate::expression::lemma_inner_prod_model;
use crate::expression::terms_view;
use crate::expression::ExprModel;
use crate::expression::Expression;
use crate::expression::MatrixExpression;
use crate::expression::MatrixModel;
use crate::expression::RankCombination;
use crate::expression::TensorExpression;
use crate::expression::TensorModel;
use crate::expression::TransModel;
use crate::expression::TranscendentalExpression;
use crate::provider::scalar_text;
use crate::tex_code::separator;
use crate::text::decimal;
use crate::text::decimal_text;
use crate::text::in_parentheses;
use crate::text::join;
use crate::text::join_text;
use crate::text::lit;
use crate::text::parenthesized;
use crate::text::signed_decimal;
use crate::text::signed_decimal_text;
use crate::text::text;
use crate::text::text_outcome;
use crate::text::then;
use vstd::prelude::*;
use vstd::string::StringExecFns;

verus! {

/// Two texts with an operator between them, in round brackets where
/// `parentheses` holds.
pub open spec fn infix(
    parentheses: bool,
    l: Result<Seq<char>, AlgebraError>,
    operator: Seq<char>,
    r: Result<Seq<char>, AlgebraError>,
) -> Result<Seq<char>, AlgebraError> {
    parenthesized(parentheses, then(then(l, lit(operator)), r))
}

/// A method without arguments called on a text.
pub open spec fn method(receiver: Result<Seq<char>, AlgebraError>, call: Seq<char>) -> Result<
    Seq<char>,
    AlgebraError,
> {
    then(receiver, lit(call))
}

/// A method called on a text with one argument.
pub open spec fn method_with(
    receiver: Result<Seq<char>, AlgebraError>,
    call: Seq<char>,
    argument: Result<Seq<char>, AlgebraError>,
) -> Result<Seq<char>, AlgebraError> {
    then(then(then(receiver, lit(call)), argument), lit(")"@))
}

/// The pairs from `k` on, each as `(first, second)`, behind `done`.
pub open spec fn pairs_code(pairs: Seq<(usize, usize)>, k: int, done: Seq<char>) -> Seq<char>
    decreases pairs.len() - k,
{
    if k < 0 || k >= pairs.len() {
        done
    } else {
        pairs_code(
            pairs,
            k + 1,
            done + separator(k) + "("@ + decimal(pairs[k].0 as nat) + ", "@ + decimal(
                pairs[k].1 as nat,
            ) + ")"@,
        )
    }
}

/// The rank combinations from `k` on, each as a vector of pairs, behind
/// `done`.
pub open spec fn combinations_code(
    combinations: Seq<Seq<(usize, usize)>>,
    k: int,
    done: Seq<char>,
) -> Seq<char>
    decreases combinations.len() - k,
{
    if k < 0 || k >= combinations.len() {
        done
    } else {
        combinations_code(
            combinations,
            k + 1,
            done + separator(k) + "vec!["@ + pairs_code(combinations[k], 0, ""@) + "]"@,
        )
    }
}

/// The indices from `k` on, behind `done`.
pub open spec fn index_code(index: Seq<usize>, k: int, done: Seq<char>) -> Seq<char>
    decreases index.len() - k,
{
    if k < 0 || k >= index.len() {
        done
    } else {
        index_code(index, k + 1, done + separator(k) + decimal(index[k] as nat))
    }
}

/// The source text of a scalar-valued tree.
pub open spec fn code_expr(e: ExprModel, parentheses: bool) -> Result<Seq<char>, AlgebraError>
    decreases e, 0nat,
{
    match e {
        ExprModel::Symbol(name, _) => lit(name),
        ExprModel::Constant(c) => match c {
            ConstantModel::Scalar(s) => lit(scalar_text(s.cell) + "f64"@),
            _ => Err(AlgebraError::Unimplemented),
        },
        ExprModel::Add(l, r) => infix(
            parentheses,
            code_expr(*l, true),
            " + "@,
            code_expr(*r, true),
        ),
        ExprModel::Sub(l, r) => infix(
            parentheses,
            code_expr(*l, true),
            " - "@,
            code_expr(*r, true),
        ),
        ExprModel::Mul(l, r) => infix(
            parentheses,
            code_expr(*l, true),
            " * "@,
            code_expr(*r, true),
        ),
        ExprModel::Div(l, r) => infix(
            parentheses,
            code_expr(*l, true),
            " / "@,
            code_expr(*r, true),
        ),
        ExprModel::Neg(v) => parenthesized(parentheses, then(lit("-"@), code_expr(*v, true))),
        ExprModel::Pow(b, q) => method_with(
            code_expr(*b, true),
            ".powr("@,
            lit(signed_decimal(q.num as int) + ", "@ + decimal(q.den as nat)),
        ),
        ExprModel::Transcendental(t) => code_trans(*t),
        ExprModel::Tensor(t) => code_tensor(*t, parentheses),
        ExprModel::Matrix(m) => code_matrix(*m, parentheses),
        ExprModel::TensorElement(t, index) => then(
            then(then(code_tensor(*t, true), lit("[&["@)), lit(index_code(index, 0, ""@))),
            lit("]]"@),
        ),
    }
}

/// The source text of a transcendental function: a method called on its
/// operand.
pub open spec fn code_trans(t: TransModel) -> Result<Seq<char>, AlgebraError>
    decreases t, 0nat,
{
    match t {
        TransModel::Abs(u) => method(code_expr(*u, true), ".abs()"@),
        TransModel::Pow(b, e) => method_with(code_expr(*b, true), ".pow("@, code_expr(*e, false)),
        TransModel::Exp(u) => method(code_expr(*u, true), ".exp()"@),
        TransModel::Log(b, a) => method_with(code_expr(*b, true), ".log("@, code_expr(*a, false)),
        TransModel::Ln(u) => method(code_expr(*u, true), ".ln()"@),
        TransModel::Sin(u) => method(code_expr(*u, true), ".sin()"@),
        TransModel::Cos(u) => method(code_expr(*u, true), ".cos()"@),
        TransModel::Tan(u) => method(code_expr(*u, true), ".tan()"@),
    }
}

/// The source text of the terms from `i` on, behind `done`.
pub open spec fn terms_code(terms: Seq<TensorModel>, i: int, done: Result<Seq<char>, AlgebraError>) -> Result<
    Seq<char>,
    AlgebraError,
>
    decreases terms, terms.len() - i,
{
    if i < 0 || i >= terms.len() {
        done
    } else {
        terms_code(
            terms,
            i + 1,
            then(then(done, lit(separator(i))), code_tensor(terms[i], false)),
        )
    }
}

/// The source text of a tensor-valued tree.  A contraction is the call that
/// builds it from the vector of its terms.
pub open spec fn code_tensor(t: TensorModel, parentheses: bool) -> Result<Seq<char>, AlgebraError>
    decreases t, 0nat,
{
    match t {
        TensorModel::Symbol(name, _) => lit(name),
        TensorModel::Constant(_) => Err(AlgebraError::Unimplemented),
        TensorModel::Zero => lit("TensorExpression::Zero"@),
        TensorModel::KroneckerDeltas(pairs) => lit(
            "TensorExpression::KroneckerDeltas(vec!["@ + pairs_code(pairs, 0, ""@) + "])"@,
        ),
        TensorModel::Add(l, r) => infix(
            parentheses,
            code_tensor(*l, true),
            " + "@,
            code_tensor(*r, true),
        ),
        TensorModel::Sub(l, r) => infix(
            parentheses,
            code_tensor(*l, true),
            " - "@,
            code_tensor(*r, true),
        ),
        TensorModel::MulScalarLhs(l, r) => infix(
            parentheses,
            code_expr(*l, true),
            " * "@,
            code_tensor(*r, true),
        ),
        TensorModel::MulScalarRhs(l, r) => infix(
            parentheses,
            code_tensor(*l, true),
            " * "@,
            code_expr(*r, true),
        ),
        TensorModel::Neg(v) => parenthesized(parentheses, then(lit("-"@), code_tensor(*v, true))),
        TensorModel::InnerProd { terms, rank_combinations } => then(
            then(terms_code(terms, 0, lit("vec!["@)), lit("].inner_prod(&vec!["@)),
            lit(combinations_code(rank_combinations, 0, ""@) + "])"@),
        ),
        TensorModel::Det(m) => method(code_matrix(*m, true), ".det()"@),
        TensorModel::Mat(m) => code_matrix(*m, parentheses),
    }
}

/// The source text of a matrix-valued tree.
pub open spec fn code_matrix(m: MatrixModel, parentheses: bool) -> Result<Seq<char>, AlgebraError>
    decreases m, 0nat,
{
    match m {
        MatrixModel::Mat(t) => code_tensor(*t, parentheses),
        MatrixModel::Constant(_) => Err(AlgebraError::Unimplemented),
        MatrixModel::Transpose(v) => method(code_matrix(*v, true), ".t()"@),
        MatrixModel::Inverse(v) => method(code_matrix(*v, true), ".inv()"@),
        MatrixModel::Determinant(v) => method(code_matrix(*v, true), ".det()"@),
    }
}

fn separator_code(k: usize) -> (r: &'static str)
    ensures
        r@ == separator(k as int),
{
    if k > 0 {
        ", "
    } else {
        ""
    }
}

fn operator_code(
    parentheses: bool,
    l: Result<String, AlgebraError>,
    operator: &str,
    r: Result<String, AlgebraError>,
) -> (out: Result<String, AlgebraError>)
    ensures
        text_outcome(out) == infix(parentheses, text_outcome(l), operator@, text_outcome(r)),
{
    in_parentheses(parentheses, join(join_text(l, operator), r))
}

fn call_with(
    receiver: Result<String, AlgebraError>,
    call: &str,
    argument: Result<String, AlgebraError>,
) -> (r: Result<String, AlgebraError>)
    ensures
        text_outcome(r) == method_with(text_outcome(receiver), call@, text_outcome(argument)),
{
    join_text(join(join_text(receiver, call), argument), ")")
}

fn pair_list(pairs: &Vec<(usize, usize)>) -> (r: String)
    ensures
        r@ == pairs_code(pairs@, 0, ""@),
{
    let mut out = String::from_str("");
    let mut k: usize = 0;
    while k < pairs.len()
        invariant
            k <= pairs.len(),
            pairs_code(pairs@, 0, ""@) == pairs_code(pairs@, k as int, out@),
        decreases pairs.len() - k,
    {
        let first = decimal_text(pairs[k].0 as u128);
        let second = decimal_text(pairs[k].1 as u128);
        out = out.concat(separator_code(k)).concat("(").concat(first.as_str()).concat(", ").concat(
            second.as_str(),
        ).concat(")");
        k += 1;
    }
    out
}

fn combination_list(combinations: &Vec<RankCombination>) -> (r: String)
    ensures
        r@ == combinations_code(combinations_view(*combinations), 0, ""@),
{
    let mut out = String::from_str("");
    let mut k: usize = 0;
    while k < combinations.len()
        invariant
            k <= combinations.len(),
            combinations_code(combinations_view(*combinations), 0, ""@) == combinations_code(
                combinations_view(*combinations),
                k as int,
                out@,
            ),
        decreases combinations.len() - k,
    {
        let pairs = pair_list(&combinations[k]);
        out = out.concat(separator_code(k)).concat("vec![").concat(pairs.as_str()).concat("]");
        k += 1;
    }
    out
}

fn index_list(index: &Vec<usize>) -> (r: String)
    ensures
        r@ == index_code(index@, 0, ""@),
{
    let mut out = String::from_str("");
    let mut k: usize = 0;
    while k < index.len()
        invariant
            k <= index.len(),
            index_code(index@, 0, ""@) == index_code(index@, k as int, out@),
        decreases index.len() - k,
    {
        let number = decimal_text(index[k] as u128);
        out = out.concat(separator_code(k)).concat(number.as_str());
        k += 1;
    }
    out
}

impl Expression {
    /// The source text of the tree.
    pub fn rust_code(&self) -> (r: Result<String, AlgebraError>)
        ensures
            text_outcome(r) == code_expr(self@, false),
    {
        self._rust_code(false)
    }

    /// The source text of the tree, in round brackets where `parentheses`
    /// holds and the tree is an operation.
    pub fn _rust_code(&self, parentheses: bool) -> (r: Result<String, AlgebraError>)
        ensures
            text_outcome(r) == code_expr(self@, parentheses),
        decreases self,
    {
        match self {
            Expression::Symbol(name, _) => Ok(name.clone()),
            Expression::Constant(c) => match c {
                ConstantValue::Scalar(s) => Ok(s.to_text().concat("f64")),
                _ => Err(AlgebraError::Unimplemented),
            },
            Expression::Add(l, r) => operator_code(
                parentheses,
                l._rust_code(true),
                " + ",
                r._rust_code(true),
            ),
            Expression::Sub(l, r) => operator_code(
                parentheses,
                l._rust_code(true),
                " - ",
                r._rust_code(true),
            ),
            Expression::Mul(l, r) => operator_code(
                parentheses,
                l._rust_code(true),
                " * ",
                r._rust_code(true),
            ),
            Expression::Div(l, r) => operator_code(
                parentheses,
                l._rust_code(true),
                " / ",
                r._rust_code(true),
            ),
            Expression::Neg(v) => in_parentheses(parentheses, join(text("-"), v._rust_code(true))),
            Expression::Pow(b, q) => {
                let exponent = signed_decimal_text(q.num).concat(", ").concat(
                    decimal_text(q.den as u128).as_str(),
                );
                call_with(b._rust_code(true), ".powr(", Ok(exponent))
            },
            Expression::Transcendental(t) => t.rust_code(),
            Expression::Tensor(t) => t._rust_code(parentheses),
            Expression::Matrix(m) => m._rust_code(parentheses),
            Expression::TensorElement(t, index) => join_text(
                join(join_text(t._rust_code(true), "[&["), Ok(index_list(index))),
                "]]",
            ),
        }
    }
}

impl TranscendentalExpression {
    /// The source text of the cosine of `argument`.
    pub fn rust_code_cos(argument: &Expression) -> (r: Result<String, AlgebraError>)
        ensures
            text_outcome(r) == method(code_expr(argument@, true), ".cos()"@),
    {
        join_text(argument._rust_code(true), ".cos()")
    }

    /// The source text of the function.
    pub fn rust_code(&self) -> (r: Result<String, AlgebraError>)
        ensures
            text_outcome(r) == code_trans(self@),
        decreases self,
    {
        match self {
            TranscendentalExpression::Abs(u) => join_text(u._rust_code(true), ".abs()"),
            TranscendentalExpression::Pow(b, e) => call_with(
                b._rust_code(true),
                ".pow(",
                e._rust_code(false),
            ),
            TranscendentalExpression::Exp(u) => join_text(u._rust_code(true), ".exp()"),
            TranscendentalExpression::Log(b, a) => call_with(
                b._rust_code(true),
                ".log(",
                a._rust_code(false),
            ),
            TranscendentalExpression::Ln(u) => join_text(u._rust_code(true), ".ln()"),
            TranscendentalExpression::Sin(u) => join_text(u._rust_code(true), ".sin()"),
            TranscendentalExpression::Cos(u) => join_text(u._rust_code(true), ".cos()"),
            TranscendentalExpression::Tan(u) => join_text(u._rust_code(true), ".tan()"),
        }
    }
}

impl TensorExpression {
    /// The source text of the contraction of `terms` under
    /// `rank_combinations`: the call that builds it from the vector of its
    /// terms, in round brackets where `parentheses` holds.
    pub fn rust_code_inner_prod(
        terms: &Vec<TensorExpression>,
        rank_combinations: &Vec<RankCombination>,
        parentheses: bool,
    ) -> (r: Result<String, AlgebraError>)
        ensures
            text_outcome(r) == code_tensor(
                TensorModel::InnerProd {
                    terms: terms_view(*terms),
                    rank_combinations: combinations_view(*rank_combinations),
                },
                parentheses,
            ),
        decreases terms,
    {
        let mut out = text("vec![");
        let mut i: usize = 0;
        while i < terms.len()
            invariant
                i <= terms.len(),
                terms_code(terms_view(*terms), 0, lit("vec!["@)) == terms_code(
                    terms_view(*terms),
                    i as int,
                    text_outcome(out),
                ),
            decreases terms.len() - i,
        {
            out = join(join_text(out, separator_code(i)), terms[i]._rust_code(false));
            i += 1;
        }
        let tail = combination_list(rank_combinations).concat("])");
        join(join_text(out, "].inner_prod(&vec!["), Ok(tail))
    }

    /// The source text of the tree.
    pub fn rust_code(&self) -> (r: Result<String, AlgebraError>)
        ensures
            text_outcome(r) == code_tensor(self@, false),
    {
        self._rust_code(false)
    }

    /// The source text of the tree, in round brackets where `parentheses`
    /// holds and the tree is an operation.
    pub fn _rust_code(&self, parentheses: bool) -> (r: Result<String, AlgebraError>)
        ensures
            text_outcome(r) == code_tensor(self@, parentheses),
        decreases self,
    {
        match self {
            TensorExpression::Symbol(name, _) => Ok(name.clone()),
            TensorExpression::Constant(_) => Err(AlgebraError::Unimplemented),
            TensorExpression::Zero => text("TensorExpression::Zero"),
            TensorExpression::KroneckerDeltas(pairs) => Ok(
                String::from_str("TensorExpression::KroneckerDeltas(vec![").concat(
                    pair_list(pairs).as_str(),
                ).concat("])"),
            ),
            TensorExpression::Add(l, r) => operator_code(
                parentheses,
                l._rust_code(true),
                " + ",
                r._rust_code(true),
            ),
            TensorExpression::Sub(l, r) => operator_code(
                parentheses,
                l._rust_code(true),
                " - ",
                r._rust_code(true),
            ),
            TensorExpression::MulScalarLhs(l, r) => operator_code(
                parentheses,
                l._rust_code(true),
                " * ",
                r._rust_code(true),
            ),
            TensorExpression::MulScalarRhs(l, r) => operator_code(
                parentheses,
                l._rust_code(true),
                " * ",
                r._rust_code(true),
            ),
            TensorExpression::Neg(v) => in_parentheses(
                parentheses,
                join(text("-"), v._rust_code(true)),
            ),
            TensorExpression::InnerProd { terms, rank_combinations } => {
                proof {
                    lemma_inner_prod_model(*self);
                }
                TensorExpression::rust_code_inner_prod(terms, rank_combinations, parentheses)
            },
            TensorExpression::Det(m) => join_text(m._rust_code(true), ".det()"),
            TensorExpression::Mat(m) => m._rust_code(parentheses),
        }
    }
}

impl MatrixExpression {
    /// The source text of the tree, in round brackets where `parentheses`
    /// holds and the tree is an operation.
    pub fn _rust_code(&self, parentheses: bool) -> (r: Result<String, AlgebraError>)
        ensures
            text_outcome(r) == code_matrix(self@, parentheses),
        decreases self,
    {
        match self {
            MatrixExpression::Mat(t) => t._rust_code(parentheses),
            MatrixExpression::Constant(_) => Err(AlgebraError::Unimplemented),
            MatrixExpression::Transpose(v) => join_text(v._rust_code(true), ".t()"),
            MatrixExpression::Inverse(v) => join_text(v._rust_code(true), ".inv()"),
            MatrixExpression::Determinant(v) => join_text(v._rust_code(true), ".det()"),
        }
    }
}

} // verus!
