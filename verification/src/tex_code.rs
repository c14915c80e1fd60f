//! The display-markup backend.
//!
//! A bracket level is handed down the tree: a node stands between round
//! brackets where the level that its place asks for is above the level of
//! its own operator.  A sum and a difference have the lowest level, a
//! product and a negation the next; a fraction and a function never need
//! brackets around them.

use crate::error::AlgebraError;
use crate::expression::combinations_view;
use crate::expression::lemma_inner_prod_model;
use crate::expression::terms_view;
use crate::expression::ExprModel;
use crate::expression::Expression;
use crate::expression::MatrixExpression;
use crate::expression::MatrixModel;
use crate::expression::RankCombination;
use crate::expression::Ratio;
use crate::expression::TensorExpression;
use crate::expression::TensorModel;
use crate::expression::TransModel;
use crate::expression::TranscendentalExpression;
use crate::constant_value::ConstantModel;
use crate::constant_value::ConstantValue;
use crate::provider::scalar_text;
use crate::shape::combination_at;
use crate::text::bracketed;
use crate::text::decimal;
use crate::text::decimal_text;
use crate::text::in_brackets;
use crate::text::join;
use crate::text::join_text;
use crate::text::letter_after;
use crate::text::letter_text;
use crate::text::lit;
use crate::text::next_char;
use crate::text::signed_decimal;
use crate::text::signed_decimal_text;
use crate::text::text;
use crate::text::text_outcome;
use crate::text::then;
use vstd::prelude::*;
use vstd::string::StringExecFns;

verus! {

/// How tightly the place of a node binds.
#[derive(Clone, Copy, Debug, PartialEq, Eq, Structural)]
pub enum BracketsLevel {
    Free,
    ForMul,
    ForDiv,
    ForOperation,
}

impl BracketsLevel {
    /// The height of the level.
    pub open spec fn height(self) -> nat {
        match self {
            BracketsLevel::Free => 0,
            BracketsLevel::ForMul => 1,
            BracketsLevel::ForDiv => 2,
            BracketsLevel::ForOperation => 3,
        }
    }

    /// Whether the level is above `own`, the height of a node's operator.
    pub fn above(&self, own: u8) -> (r: bool)
        ensures
            r == (self.height() > own),
    {
        match self {
            BracketsLevel::Free => false,
            BracketsLevel::ForMul => own < 1,
            BracketsLevel::ForDiv => own < 2,
            BracketsLevel::ForOperation => own < 3,
        }
    }
}

/// The names under which symbols are shown.
pub open spec fn symbols_view(symbols: Vec<(String, String)>) -> Seq<(Seq<char>, Seq<char>)> {
    Seq::new(symbols.len() as nat, |k: int| (symbols[k].0@, symbols[k].1@))
}

/// The name under which a symbol is shown: that of the first entry for it
/// from `i` on, its own name where there is none.
pub open spec fn display(symbols: Seq<(Seq<char>, Seq<char>)>, name: Seq<char>, i: int) -> Seq<char>
    decreases symbols.len() - i,
{
    if i < 0 || i >= symbols.len() {
        name
    } else if symbols[i].0 == name {
        symbols[i].1
    } else {
        display(symbols, name, i + 1)
    }
}

/// A text between braces.
pub open spec fn braces(inner: Result<Seq<char>, AlgebraError>) -> Result<Seq<char>, AlgebraError> {
    then(then(lit("{"@), inner), lit("}"@))
}

/// Two texts with an operator between them, in braces.
pub open spec fn binary(
    l: Result<Seq<char>, AlgebraError>,
    operator: Seq<char>,
    r: Result<Seq<char>, AlgebraError>,
) -> Result<Seq<char>, AlgebraError> {
    braces(then(then(l, lit(operator)), r))
}

/// A function applied to a text in braces.
pub open spec fn applied(function: Seq<char>, argument: Result<Seq<char>, AlgebraError>) -> Result<
    Seq<char>,
    AlgebraError,
> {
    then(then(then(lit(function), lit("{"@)), argument), lit("}"@))
}

/// The separator before item `k` of a list.
pub open spec fn separator(k: int) -> Seq<char> {
    if k > 0 {
        ", "@
    } else {
        ""@
    }
}

/// The indices from `k` on, counted from one, behind `done`.
pub open spec fn index_text(index: Seq<usize>, k: int, done: Seq<char>) -> Seq<char>
    decreases index.len() - k,
{
    if k < 0 || k >= index.len() {
        done
    } else {
        index_text(index, k + 1, done + separator(k) + decimal((index[k] + 1) as nat))
    }
}

/// The text of an exact exponent.
pub open spec fn ratio_text(q: Ratio) -> Seq<char> {
    if q.den == 1 {
        signed_decimal(q.num as int)
    } else {
        signed_decimal(q.num as int) + "/"@ + decimal(q.den as nat)
    }
}

/// The list with `id` behind it, unless the list holds it already.
pub open spec fn with_id(seen: Seq<usize>, id: usize) -> Seq<usize> {
    if seen.contains(id) {
        seen
    } else {
        seen.push(id)
    }
}

/// The identifiers of a combination from entry `j` on, behind those seen
/// before, each once.
pub open spec fn ids_in(combination: Seq<(usize, usize)>, j: int, seen: Seq<usize>) -> Seq<usize>
    decreases combination.len() - j,
{
    if j < 0 || j >= combination.len() {
        seen
    } else {
        ids_in(combination, j + 1, with_id(seen, combination[j].1))
    }
}

/// The identifiers of the combinations from `k` on, behind those seen
/// before, each once, in the order in which they are first seen.
pub open spec fn ids_from(combinations: Seq<Seq<(usize, usize)>>, k: int, seen: Seq<usize>) -> Seq<
    usize,
>
    decreases combinations.len() - k,
{
    if k < 0 || k >= combinations.len() {
        seen
    } else {
        ids_from(combinations, k + 1, ids_in(combinations[k], 0, seen))
    }
}

/// The place of `id` in the list from `k` on; the length of the list where
/// it is not there.
pub open spec fn position(seen: Seq<usize>, id: usize, k: int) -> int
    decreases seen.len() - k,
{
    if k < 0 || k >= seen.len() {
        seen.len() as int
    } else if seen[k] == id {
        k
    } else {
        position(seen, id, k + 1)
    }
}

/// The index letter of place `place`: `i` for the first, then on through
/// the alphabet.  Behind `z` there is none.
pub open spec fn letter(place: int) -> Result<Seq<char>, AlgebraError> {
    if place < 0 {
        Err(AlgebraError::IndexOutOfRange)
    } else {
        match letter_after('i', place as nat) {
            Some(c) => Ok(seq![c]),
            None => Err(AlgebraError::IndexOutOfRange),
        }
    }
}

/// The index letters of the places from `k` to `count`, behind `done`.
pub open spec fn letters_from(count: int, k: int, done: Result<Seq<char>, AlgebraError>) -> Result<
    Seq<char>,
    AlgebraError,
>
    decreases count - k,
{
    if k < 0 || k >= count {
        done
    } else {
        letters_from(count, k + 1, then(then(done, lit(separator(k))), letter(k)))
    }
}

/// The entries of a combination from `j` on, behind `done`: the rank in
/// square brackets, and the index letter of its identifier.
pub open spec fn entries_from(
    combination: Seq<(usize, usize)>,
    seen: Seq<usize>,
    j: int,
    done: Result<Seq<char>, AlgebraError>,
) -> Result<Seq<char>, AlgebraError>
    decreases combination.len() - j,
{
    if j < 0 || j >= combination.len() {
        done
    } else {
        entries_from(
            combination,
            seen,
            j + 1,
            then(
                then(
                    then(
                        then(then(done, lit(separator(j))), lit("["@)),
                        lit(decimal(combination[j].0 as nat)),
                    ),
                    lit("] = "@),
                ),
                letter(position(seen, combination[j].1, 0)),
            ),
        )
    }
}

/// The Kronecker deltas from `k` on, behind `done`.
pub open spec fn deltas_from(pairs: Seq<(usize, usize)>, k: int, done: Seq<char>) -> Seq<char>
    decreases pairs.len() - k,
{
    if k < 0 || k >= pairs.len() {
        done
    } else {
        deltas_from(
            pairs,
            k + 1,
            done + "\\delta_{["@ + decimal(pairs[k].0 as nat) + "], ["@ + decimal(
                pairs[k].1 as nat,
            ) + "]}"@,
        )
    }
}

/// The markup of a numeric constant: the decimal text of a scalar, a bold
/// letter for a tensor or a matrix.
pub open spec fn tex_constant(c: ConstantModel) -> Seq<char> {
    match c {
        ConstantModel::Scalar(s) => scalar_text(s.cell),
        ConstantModel::Tensor(_) => "\\mathbf{T}"@,
        ConstantModel::Matrix(_) => "\\mathbf{M}"@,
    }
}

/// The markup of a scalar-valued tree at a bracket level.
pub open spec fn tex_expr(
    e: ExprModel,
    symbols: Seq<(Seq<char>, Seq<char>)>,
    level: BracketsLevel,
) -> Result<Seq<char>, AlgebraError>
    decreases e, 0nat,
{
    match e {
        ExprModel::Symbol(name, _) => braces(lit(display(symbols, name, 0))),
        ExprModel::Constant(c) => braces(lit(tex_constant(c))),
        ExprModel::Add(l, r) => bracketed(
            level.height() > 0,
            binary(
                tex_expr(*l, symbols, BracketsLevel::Free),
                " + "@,
                tex_expr(*r, symbols, BracketsLevel::Free),
            ),
        ),
        ExprModel::Sub(l, r) => bracketed(
            level.height() > 0,
            binary(
                tex_expr(*l, symbols, BracketsLevel::Free),
                " - "@,
                tex_expr(*r, symbols, BracketsLevel::ForMul),
            ),
        ),
        ExprModel::Mul(l, r) => bracketed(
            level.height() > 1,
            binary(
                tex_expr(*l, symbols, BracketsLevel::ForMul),
                " \\times "@,
                tex_expr(*r, symbols, BracketsLevel::ForMul),
            ),
        ),
        ExprModel::Div(l, r) => then(
            applied("\\frac"@, tex_expr(*l, symbols, BracketsLevel::Free)),
            braces(tex_expr(*r, symbols, BracketsLevel::Free)),
        ),
        ExprModel::Neg(v) => bracketed(
            level.height() > 1,
            braces(then(lit("-"@), tex_expr(*v, symbols, BracketsLevel::ForOperation))),
        ),
        ExprModel::Pow(b, q) => then(
            braces(tex_expr(*b, symbols, BracketsLevel::ForDiv)),
            applied("^"@, lit(ratio_text(q))),
        ),
        ExprModel::Transcendental(t) => tex_trans(*t, symbols),
        ExprModel::Tensor(t) => tex_tensor(*t, symbols, level),
        ExprModel::Matrix(m) => tex_matrix(*m, symbols, level),
        ExprModel::TensorElement(t, index) => then(
            tex_tensor(*t, symbols, BracketsLevel::ForOperation),
            applied("_"@, lit(index_text(index, 0, ""@))),
        ),
    }
}

/// The markup of a transcendental function.
pub open spec fn tex_trans(t: TransModel, symbols: Seq<(Seq<char>, Seq<char>)>) -> Result<
    Seq<char>,
    AlgebraError,
>
    decreases t, 0nat,
{
    match t {
        TransModel::Abs(u) => then(
            then(lit("\\left|"@), tex_expr(*u, symbols, BracketsLevel::Free)),
            lit("\\right|"@),
        ),
        TransModel::Pow(b, e) => then(
            braces(tex_expr(*b, symbols, BracketsLevel::ForDiv)),
            applied("^"@, tex_expr(*e, symbols, BracketsLevel::Free)),
        ),
        TransModel::Exp(u) => applied(
            "\\exp"@,
            tex_expr(*u, symbols, BracketsLevel::ForOperation),
        ),
        TransModel::Log(b, a) => then(
            applied("\\log_"@, tex_expr(*b, symbols, BracketsLevel::Free)),
            braces(tex_expr(*a, symbols, BracketsLevel::ForOperation)),
        ),
        TransModel::Ln(u) => applied("\\ln"@, tex_expr(*u, symbols, BracketsLevel::ForOperation)),
        TransModel::Sin(u) => applied(
            "\\sin"@,
            tex_expr(*u, symbols, BracketsLevel::ForOperation),
        ),
        TransModel::Cos(u) => applied(
            "\\cos"@,
            tex_expr(*u, symbols, BracketsLevel::ForOperation),
        ),
        TransModel::Tan(u) => applied(
            "\\tan"@,
            tex_expr(*u, symbols, BracketsLevel::ForOperation),
        ),
    }
}

/// The markup of the terms of a contraction from `i` on, behind `done`: each
/// term with the entries of its combination below it.
pub open spec fn tex_terms_from(
    terms: Seq<TensorModel>,
    combinations: Seq<Seq<(usize, usize)>>,
    symbols: Seq<(Seq<char>, Seq<char>)>,
    seen: Seq<usize>,
    i: int,
    done: Result<Seq<char>, AlgebraError>,
) -> Result<Seq<char>, AlgebraError>
    decreases terms, terms.len() - i,
{
    if i < 0 || i >= terms.len() {
        done
    } else {
        tex_terms_from(
            terms,
            combinations,
            symbols,
            seen,
            i + 1,
            then(
                then(done, tex_tensor(terms[i], symbols, BracketsLevel::ForMul)),
                applied("_"@, entries_from(combination_at(combinations, i), seen, 0, lit(""@))),
            ),
        )
    }
}

/// The markup of a tensor-valued tree at a bracket level.  A contraction is
/// a sum over one index letter for each identifier, the letters given in the
/// order in which the identifiers are first seen.
pub open spec fn tex_tensor(
    t: TensorModel,
    symbols: Seq<(Seq<char>, Seq<char>)>,
    level: BracketsLevel,
) -> Result<Seq<char>, AlgebraError>
    decreases t, 0nat,
{
    match t {
        TensorModel::Symbol(name, _) => braces(lit(display(symbols, name, 0))),
        TensorModel::Constant(_) => braces(lit("\\mathbf{T}"@)),
        TensorModel::Zero => braces(lit("0"@)),
        TensorModel::KroneckerDeltas(pairs) => braces(lit(deltas_from(pairs, 0, ""@))),
        TensorModel::Add(l, r) => bracketed(
            level.height() > 0,
            binary(
                tex_tensor(*l, symbols, BracketsLevel::Free),
                " + "@,
                tex_tensor(*r, symbols, BracketsLevel::Free),
            ),
        ),
        TensorModel::Sub(l, r) => bracketed(
            level.height() > 0,
            binary(
                tex_tensor(*l, symbols, BracketsLevel::Free),
                " - "@,
                tex_tensor(*r, symbols, BracketsLevel::ForMul),
            ),
        ),
        TensorModel::MulScalarLhs(l, r) => bracketed(
            level.height() > 1,
            binary(
                tex_expr(*l, symbols, BracketsLevel::ForMul),
                " "@,
                tex_tensor(*r, symbols, BracketsLevel::ForMul),
            ),
        ),
        TensorModel::MulScalarRhs(l, r) => bracketed(
            level.height() > 1,
            binary(
                tex_tensor(*l, symbols, BracketsLevel::ForMul),
                " "@,
                tex_expr(*r, symbols, BracketsLevel::ForMul),
            ),
        ),
        TensorModel::Neg(v) => bracketed(
            level.height() > 1,
            braces(then(lit("-"@), tex_tensor(*v, symbols, BracketsLevel::ForOperation))),
        ),
        TensorModel::InnerProd { terms, rank_combinations } => {
            let seen = ids_from(rank_combinations, 0, Seq::empty());
            braces(
                tex_terms_from(
                    terms,
                    rank_combinations,
                    symbols,
                    seen,
                    0,
                    applied("\\sum_"@, letters_from(seen.len() as int, 0, lit(""@))),
                ),
            )
        },
        TensorModel::Det(m) => then(
            then(lit("\\left|"@), tex_matrix(*m, symbols, BracketsLevel::Free)),
            lit("\\right|"@),
        ),
        TensorModel::Mat(m) => tex_matrix(*m, symbols, level),
    }
}

/// The markup of a matrix-valued tree at a bracket level.
pub open spec fn tex_matrix(
    m: MatrixModel,
    symbols: Seq<(Seq<char>, Seq<char>)>,
    level: BracketsLevel,
) -> Result<Seq<char>, AlgebraError>
    decreases m, 0nat,
{
    match m {
        MatrixModel::Mat(t) => tex_tensor(*t, symbols, level),
        MatrixModel::Constant(_) => braces(lit("\\mathbf{M}"@)),
        MatrixModel::Transpose(v) => then(
            braces(tex_matrix(*v, symbols, BracketsLevel::ForOperation)),
            lit("^{\\top}"@),
        ),
        MatrixModel::Inverse(v) => then(
            braces(tex_matrix(*v, symbols, BracketsLevel::ForOperation)),
            lit("^{-1}"@),
        ),
        MatrixModel::Determinant(v) => then(
            then(lit("\\left|"@), tex_matrix(*v, symbols, BracketsLevel::Free)),
            lit("\\right|"@),
        ),
    }
}

/// The name under which a symbol is shown.
pub fn shown_name(symbols: &Vec<(String, String)>, name: &String) -> (r: String)
    ensures
        r@ == display(symbols_view(*symbols), name@, 0),
{
    let mut i: usize = 0;
    while i < symbols.len()
        invariant
            i <= symbols.len(),
            display(symbols_view(*symbols), name@, 0) == display(
                symbols_view(*symbols),
                name@,
                i as int,
            ),
        decreases symbols.len() - i,
    {
        if symbols[i].0 == *name {
            return symbols[i].1.clone();
        }
        i += 1;
    }
    name.clone()
}

fn in_braces(inner: Result<String, AlgebraError>) -> (r: Result<String, AlgebraError>)
    ensures
        text_outcome(r) == braces(text_outcome(inner)),
{
    join_text(join(text("{"), inner), "}")
}

fn operation(l: Result<String, AlgebraError>, operator: &str, r: Result<String, AlgebraError>) -> (out:
    Result<String, AlgebraError>)
    ensures
        text_outcome(out) == binary(text_outcome(l), operator@, text_outcome(r)),
{
    in_braces(join(join_text(l, operator), r))
}

fn application(function: &str, argument: Result<String, AlgebraError>) -> (r: Result<
    String,
    AlgebraError,
>)
    ensures
        text_outcome(r) == applied(function@, text_outcome(argument)),
{
    join_text(join(join_text(text(function), "{"), argument), "}")
}

fn separator_text(k: usize) -> (r: &'static str)
    ensures
        r@ == separator(k as int),
{
    if k > 0 {
        ", "
    } else {
        ""
    }
}

fn index_list(index: &Vec<usize>) -> (r: String)
    ensures
        r@ == index_text(index@, 0, ""@),
{
    let mut out = String::from_str("");
    let mut k: usize = 0;
    while k < index.len()
        invariant
            k <= index.len(),
            index_text(index@, 0, ""@) == index_text(index@, k as int, out@),
        decreases index.len() - k,
    {
        let number = decimal_text(index[k] as u128 + 1);
        out = out.concat(separator_text(k)).concat(number.as_str());
        k += 1;
    }
    out
}

fn ratio_string(q: &Ratio) -> (r: String)
    ensures
        r@ == ratio_text(*q),
{
    if q.den == 1 {
        signed_decimal_text(q.num)
    } else {
        signed_decimal_text(q.num).concat("/").concat(decimal_text(q.den as u128).as_str())
    }
}

fn add_id(seen: Vec<usize>, id: usize) -> (r: Vec<usize>)
    ensures
        r@ == with_id(seen@, id),
{
    let mut k: usize = 0;
    while k < seen.len()
        invariant
            k <= seen.len(),
            forall|j: int| 0 <= j < k ==> seen@[j] != id,
        decreases seen.len() - k,
    {
        if seen[k] == id {
            return seen;
        }
        k += 1;
    }
    let mut out = seen;
    out.push(id);
    out
}

fn collect_ids(combinations: &Vec<RankCombination>) -> (r: Vec<usize>)
    ensures
        r@ == ids_from(combinations_view(*combinations), 0, Seq::empty()),
{
    let mut seen: Vec<usize> = Vec::new();
    let mut k: usize = 0;
    while k < combinations.len()
        invariant
            k <= combinations.len(),
            ids_from(combinations_view(*combinations), 0, Seq::empty()) == ids_from(
                combinations_view(*combinations),
                k as int,
                seen@,
            ),
        decreases combinations.len() - k,
    {
        let ghost before = seen@;
        let mut j: usize = 0;
        while j < combinations[k].len()
            invariant
                k < combinations.len(),
                j <= combinations[k as int].len(),
                ids_in(combinations[k as int]@, 0, before) == ids_in(
                    combinations[k as int]@,
                    j as int,
                    seen@,
                ),
            decreases combinations[k as int].len() - j,
        {
            seen = add_id(seen, combinations[k][j].1);
            j += 1;
        }
        k += 1;
    }
    seen
}

fn place_of(seen: &Vec<usize>, id: usize) -> (r: usize)
    ensures
        r == position(seen@, id, 0),
{
    let mut k: usize = 0;
    while k < seen.len()
        invariant
            k <= seen.len(),
            position(seen@, id, 0) == position(seen@, id, k as int),
        decreases seen.len() - k,
    {
        if seen[k] == id {
            return k;
        }
        k += 1;
    }
    seen.len()
}

fn letter_at(place: usize) -> (r: Result<String, AlgebraError>)
    ensures
        text_outcome(r) == letter(place as int),
{
    match next_char('i', place) {
        Some(c) => Ok(String::from_str(letter_text(c))),
        None => Err(AlgebraError::IndexOutOfRange),
    }
}

fn letter_list(count: usize) -> (r: Result<String, AlgebraError>)
    ensures
        text_outcome(r) == letters_from(count as int, 0, lit(""@)),
{
    let mut out = text("");
    let mut k: usize = 0;
    while k < count
        invariant
            k <= count,
            letters_from(count as int, 0, lit(""@)) == letters_from(
                count as int,
                k as int,
                text_outcome(out),
            ),
        decreases count - k,
    {
        out = join(join_text(out, separator_text(k)), letter_at(k));
        k += 1;
    }
    out
}

fn entry_list(combination: &Vec<(usize, usize)>, seen: &Vec<usize>) -> (r: Result<
    String,
    AlgebraError,
>)
    ensures
        text_outcome(r) == entries_from(combination@, seen@, 0, lit(""@)),
{
    let mut out = text("");
    let mut j: usize = 0;
    while j < combination.len()
        invariant
            j <= combination.len(),
            entries_from(combination@, seen@, 0, lit(""@)) == entries_from(
                combination@,
                seen@,
                j as int,
                text_outcome(out),
            ),
        decreases combination.len() - j,
    {
        let rank = decimal_text(combination[j].0 as u128);
        let place = place_of(seen, combination[j].1);
        out = join(
            join_text(
                join_text(join_text(join_text(out, separator_text(j)), "["), rank.as_str()),
                "] = ",
            ),
            letter_at(place),
        );
        j += 1;
    }
    out
}

fn delta_list(pairs: &Vec<(usize, usize)>) -> (r: String)
    ensures
        r@ == deltas_from(pairs@, 0, ""@),
{
    let mut out = String::from_str("");
    let mut k: usize = 0;
    while k < pairs.len()
        invariant
            k <= pairs.len(),
            deltas_from(pairs@, 0, ""@) == deltas_from(pairs@, k as int, out@),
        decreases pairs.len() - k,
    {
        let first = decimal_text(pairs[k].0 as u128);
        let second = decimal_text(pairs[k].1 as u128);
        out = out.concat("\\delta_{[").concat(first.as_str()).concat("], [").concat(
            second.as_str(),
        ).concat("]}");
        k += 1;
    }
    out
}

fn constant_text(c: &ConstantValue) -> (r: String)
    ensures
        r@ == tex_constant(c@),
{
    match c {
        ConstantValue::Scalar(s) => s.to_text(),
        ConstantValue::Tensor(_) => String::from_str("\\mathbf{T}"),
        ConstantValue::Matrix(_) => String::from_str("\\mathbf{M}"),
    }
}

impl Expression {
    /// The markup of the tree, every symbol under the name that `symbols`
    /// gives it.
    pub fn tex_code(&self, symbols: &Vec<(String, String)>) -> (r: Result<String, AlgebraError>)
        ensures
            text_outcome(r) == tex_expr(self@, symbols_view(*symbols), BracketsLevel::Free),
    {
        self._tex_code(symbols, BracketsLevel::Free)
    }

    /// The markup of the tree at a bracket level.
    pub fn _tex_code(&self, symbols: &Vec<(String, String)>, level: BracketsLevel) -> (r: Result<
        String,
        AlgebraError,
    >)
        ensures
            text_outcome(r) == tex_expr(self@, symbols_view(*symbols), level),
        decreases self,
    {
        match self {
            Expression::Symbol(name, _) => in_braces(Ok(shown_name(symbols, name))),
            Expression::Constant(c) => in_braces(Ok(constant_text(c))),
            Expression::Add(l, r) => in_brackets(
                level.above(0),
                operation(
                    l._tex_code(symbols, BracketsLevel::Free),
                    " + ",
                    r._tex_code(symbols, BracketsLevel::Free),
                ),
            ),
            Expression::Sub(l, r) => in_brackets(
                level.above(0),
                operation(
                    l._tex_code(symbols, BracketsLevel::Free),
                    " - ",
                    r._tex_code(symbols, BracketsLevel::ForMul),
                ),
            ),
            Expression::Mul(l, r) => in_brackets(
                level.above(1),
                operation(
                    l._tex_code(symbols, BracketsLevel::ForMul),
                    " \\times ",
                    r._tex_code(symbols, BracketsLevel::ForMul),
                ),
            ),
            Expression::Div(l, r) => join(
                application("\\frac", l._tex_code(symbols, BracketsLevel::Free)),
                in_braces(r._tex_code(symbols, BracketsLevel::Free)),
            ),
            Expression::Neg(v) => in_brackets(
                level.above(1),
                in_braces(join(text("-"), v._tex_code(symbols, BracketsLevel::ForOperation))),
            ),
            Expression::Pow(b, q) => join(
                in_braces(b._tex_code(symbols, BracketsLevel::ForDiv)),
                application("^", Ok(ratio_string(q))),
            ),
            Expression::Transcendental(t) => t.tex_code(symbols),
            Expression::Tensor(t) => t._tex_code(symbols, level),
            Expression::Matrix(m) => m._tex_code(symbols, level),
            Expression::TensorElement(t, index) => join(
                t._tex_code(symbols, BracketsLevel::ForOperation),
                application("_", Ok(index_list(index))),
            ),
        }
    }

    /// The markup of the negation of `v`.
    pub fn tex_code_neg(v: &Expression, symbols: &Vec<(String, String)>) -> (r: Result<
        String,
        AlgebraError,
    >)
        ensures
            text_outcome(r) == braces(
                then(
                    lit("-"@),
                    tex_expr(v@, symbols_view(*symbols), BracketsLevel::ForOperation),
                ),
            ),
    {
        in_braces(join(text("-"), v._tex_code(symbols, BracketsLevel::ForOperation)))
    }

    /// The markup of the difference of `l` and `r` at a bracket level: the
    /// subtrahend stands in brackets where it is a sum or a difference.
    pub fn tex_code_sub(
        l: &Expression,
        r: &Expression,
        symbols: &Vec<(String, String)>,
        level: BracketsLevel,
    ) -> (out: Result<String, AlgebraError>)
        ensures
            text_outcome(out) == bracketed(
                level.height() > 0,
                binary(
                    tex_expr(l@, symbols_view(*symbols), BracketsLevel::Free),
                    " - "@,
                    tex_expr(r@, symbols_view(*symbols), BracketsLevel::ForMul),
                ),
            ),
    {
        in_brackets(
            level.above(0),
            operation(
                l._tex_code(symbols, BracketsLevel::Free),
                " - ",
                r._tex_code(symbols, BracketsLevel::ForMul),
            ),
        )
    }
}

impl TranscendentalExpression {
    /// The markup of the exponential of `argument`.
    pub fn tex_code_exp(argument: &Expression, symbols: &Vec<(String, String)>) -> (r: Result<
        String,
        AlgebraError,
    >)
        ensures
            text_outcome(r) == applied(
                "\\exp"@,
                tex_expr(argument@, symbols_view(*symbols), BracketsLevel::ForOperation),
            ),
    {
        application("\\exp", argument._tex_code(symbols, BracketsLevel::ForOperation))
    }

    /// The markup of the function.
    pub fn tex_code(&self, symbols: &Vec<(String, String)>) -> (r: Result<String, AlgebraError>)
        ensures
            text_outcome(r) == tex_trans(self@, symbols_view(*symbols)),
        decreases self,
    {
        match self {
            TranscendentalExpression::Abs(u) => join_text(
                join(text("\\left|"), u._tex_code(symbols, BracketsLevel::Free)),
                "\\right|",
            ),
            TranscendentalExpression::Pow(b, e) => join(
                in_braces(b._tex_code(symbols, BracketsLevel::ForDiv)),
                application("^", e._tex_code(symbols, BracketsLevel::Free)),
            ),
            TranscendentalExpression::Exp(u) => application(
                "\\exp",
                u._tex_code(symbols, BracketsLevel::ForOperation),
            ),
            TranscendentalExpression::Log(b, a) => join(
                application("\\log_", b._tex_code(symbols, BracketsLevel::Free)),
                in_braces(a._tex_code(symbols, BracketsLevel::ForOperation)),
            ),
            TranscendentalExpression::Ln(u) => application(
                "\\ln",
                u._tex_code(symbols, BracketsLevel::ForOperation),
            ),
            TranscendentalExpression::Sin(u) => application(
                "\\sin",
                u._tex_code(symbols, BracketsLevel::ForOperation),
            ),
            TranscendentalExpression::Cos(u) => application(
                "\\cos",
                u._tex_code(symbols, BracketsLevel::ForOperation),
            ),
            TranscendentalExpression::Tan(u) => application(
                "\\tan",
                u._tex_code(symbols, BracketsLevel::ForOperation),
            ),
        }
    }
}

impl TensorExpression {
    /// The markup of the contraction of `terms` under `rank_combinations`:
    /// a sum over one index letter for each identifier, and each term with
    /// the entries of its combination below it.
    pub fn tex_code_inner_prod(
        terms: &Vec<TensorExpression>,
        rank_combinations: &Vec<RankCombination>,
        symbols: &Vec<(String, String)>,
    ) -> (r: Result<String, AlgebraError>)
        ensures
            text_outcome(r) == tex_tensor(
                TensorModel::InnerProd {
                    terms: terms_view(*terms),
                    rank_combinations: combinations_view(*rank_combinations),
                },
                symbols_view(*symbols),
                BracketsLevel::Free,
            ),
        decreases terms,
    {
        let seen = collect_ids(rank_combinations);
        let mut out = application("\\sum_", letter_list(seen.len()));
        let mut i: usize = 0;
        while i < terms.len()
            invariant
                i <= terms.len(),
                tex_terms_from(
                    terms_view(*terms),
                    combinations_view(*rank_combinations),
                    symbols_view(*symbols),
                    seen@,
                    0,
                    applied("\\sum_"@, letters_from(seen@.len() as int, 0, lit(""@))),
                ) == tex_terms_from(
                    terms_view(*terms),
                    combinations_view(*rank_combinations),
                    symbols_view(*symbols),
                    seen@,
                    i as int,
                    text_outcome(out),
                ),
            decreases terms.len() - i,
        {
            let entries = if i < rank_combinations.len() {
                entry_list(&rank_combinations[i], &seen)
            } else {
                let none: Vec<(usize, usize)> = Vec::new();
                entry_list(&none, &seen)
            };
            out = join(
                join(out, terms[i]._tex_code(symbols, BracketsLevel::ForMul)),
                application("_", entries),
            );
            i += 1;
        }
        in_braces(out)
    }

    /// The markup of the tree, every symbol under the name that `symbols`
    /// gives it.
    pub fn tex_code(&self, symbols: &Vec<(String, String)>) -> (r: Result<String, AlgebraError>)
        ensures
            text_outcome(r) == tex_tensor(self@, symbols_view(*symbols), BracketsLevel::Free),
    {
        self._tex_code(symbols, BracketsLevel::Free)
    }

    /// The markup of the tree at a bracket level.
    pub fn _tex_code(&self, symbols: &Vec<(String, String)>, level: BracketsLevel) -> (r: Result<
        String,
        AlgebraError,
    >)
        ensures
            text_outcome(r) == tex_tensor(self@, symbols_view(*symbols), level),
        decreases self,
    {
        match self {
            TensorExpression::Symbol(name, _) => in_braces(Ok(shown_name(symbols, name))),
            TensorExpression::Constant(_) => in_braces(text("\\mathbf{T}")),
            TensorExpression::Zero => in_braces(text("0")),
            TensorExpression::KroneckerDeltas(pairs) => in_braces(Ok(delta_list(pairs))),
            TensorExpression::Add(l, r) => in_brackets(
                level.above(0),
                operation(
                    l._tex_code(symbols, BracketsLevel::Free),
                    " + ",
                    r._tex_code(symbols, BracketsLevel::Free),
                ),
            ),
            TensorExpression::Sub(l, r) => in_brackets(
                level.above(0),
                operation(
                    l._tex_code(symbols, BracketsLevel::Free),
                    " - ",
                    r._tex_code(symbols, BracketsLevel::ForMul),
                ),
            ),
            TensorExpression::MulScalarLhs(l, r) => in_brackets(
                level.above(1),
                operation(
                    l._tex_code(symbols, BracketsLevel::ForMul),
                    " ",
                    r._tex_code(symbols, BracketsLevel::ForMul),
                ),
            ),
            TensorExpression::MulScalarRhs(l, r) => in_brackets(
                level.above(1),
                operation(
                    l._tex_code(symbols, BracketsLevel::ForMul),
                    " ",
                    r._tex_code(symbols, BracketsLevel::ForMul),
                ),
            ),
            TensorExpression::Neg(v) => in_brackets(
                level.above(1),
                in_braces(join(text("-"), v._tex_code(symbols, BracketsLevel::ForOperation))),
            ),
            TensorExpression::InnerProd { terms, rank_combinations } => {
                proof {
                    lemma_inner_prod_model(*self);
                }
                TensorExpression::tex_code_inner_prod(terms, rank_combinations, symbols)
            },
            TensorExpression::Det(m) => join_text(
                join(text("\\left|"), m._tex_code(symbols, BracketsLevel::Free)),
                "\\right|",
            ),
            TensorExpression::Mat(m) => m._tex_code(symbols, level),
        }
    }
}

impl MatrixExpression {
    /// The markup of the tree at a bracket level.
    pub fn _tex_code(&self, symbols: &Vec<(String, String)>, level: BracketsLevel) -> (r: Result<
        String,
        AlgebraError,
    >)
        ensures
            text_outcome(r) == tex_matrix(self@, symbols_view(*symbols), level),
        decreases self,
    {
        match self {
            MatrixExpression::Mat(t) => t._tex_code(symbols, level),
            MatrixExpression::Constant(_) => in_braces(text("\\mathbf{M}")),
            MatrixExpression::Transpose(v) => join_text(
                in_braces(v._tex_code(symbols, BracketsLevel::ForOperation)),
                "^{\\top}",
            ),
            MatrixExpression::Inverse(v) => join_text(
                in_braces(v._tex_code(symbols, BracketsLevel::ForOperation)),
                "^{-1}",
            ),
            MatrixExpression::Determinant(v) => join_text(
                join(text("\\left|"), v._tex_code(symbols, BracketsLevel::Free)),
                "\\right|",
            ),
        }
    }
}

} // verus!
