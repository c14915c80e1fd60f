//! Shapes: the class of every axis of a tree, and the inference of the shape
//! of a contraction from the shapes of its terms.

use crate::expression::combinations_view;
use crate::expression::lemma_inner_prod_model;
use crate::expression::terms_view;
use crate::expression::ExprModel;
use crate::expression::Expression;
use crate::expression::MatrixExpression;
use crate::expression::MatrixModel;
use crate::expression::RankCombination;
use crate::expression::TensorExpression;
use crate::expression::TensorModel;
use crate::expression::TransModel;
use crate::expression::TranscendentalExpression;
use crate::provider::matrix_col_count;
use crate::provider::matrix_cols;
use crate::provider::matrix_row_count;
use crate::provider::matrix_rows;
use crate::provider::tensor_shape;
use crate::size::classify_shape;
use crate::size::copy_sizes;
use crate::size::size_class;
use crate::size::size_classes;
use crate::size::Size;
use crate::constant_value::tensor_dimensions;
use vstd::prelude::*;

verus! {

/// Whether a rank combination sums over `rank`.
pub open spec fn contracts(combination: Seq<(usize, usize)>, rank: int) -> bool {
    exists|j: int| 0 <= j < combination.len() && (#[trigger] combination[j]).0 == rank
}

/// The rank combination of term `i`; a term beyond the list has none.
pub open spec fn combination_at(combinations: Seq<Seq<(usize, usize)>>, i: int) -> Seq<
    (usize, usize),
> {
    if 0 <= i < combinations.len() {
        combinations[i]
    } else {
        Seq::empty()
    }
}

/// Whether term `i` claims `rank`: the term has more than one element along
/// it, and does not sum over it.
pub open spec fn claims(
    shapes: Seq<Seq<Size>>,
    combinations: Seq<Seq<(usize, usize)>>,
    i: int,
    rank: int,
) -> bool {
    &&& 0 <= i < shapes.len()
    &&& 0 <= rank < shapes[i].len()
    &&& shapes[i][rank] == Size::Many
    &&& !contracts(combination_at(combinations, i), rank)
}

/// Whether some term claims `rank`.
pub open spec fn claimed(
    shapes: Seq<Seq<Size>>,
    combinations: Seq<Seq<(usize, usize)>>,
    rank: int,
) -> bool {
    exists|i: int| claims(shapes, combinations, i, rank)
}

/// The largest number of axes among the shapes.
pub open spec fn max_rank(shapes: Seq<Seq<Size>>) -> nat
    decreases shapes.len(),
{
    if shapes.len() == 0 {
        0
    } else {
        let rest = max_rank(shapes.drop_last());
        if shapes.last().len() > rest {
            shapes.last().len()
        } else {
            rest
        }
    }
}

/// The shape of a contraction: as many axes as its longest term has, an axis
/// being `Many` where a term claims it and `One` where none does.
pub open spec fn inner_prod_sizes(
    shapes: Seq<Seq<Size>>,
    combinations: Seq<Seq<(usize, usize)>>,
) -> Seq<Size> {
    Seq::new(
        max_rank(shapes),
        |k: int|
            if claimed(shapes, combinations, k) {
                Size::Many
            } else {
                Size::One
            },
    )
}

/// The number of axes with more than one element.
pub open spec fn count_many(sizes: Seq<Size>) -> nat
    decreases sizes.len(),
{
    if sizes.len() == 0 {
        0
    } else {
        count_many(sizes.drop_last()) + if sizes.last() == Size::Many {
            1nat
        } else {
            0nat
        }
    }
}

/// Whether a pair of the Kronecker deltas ties the rank to another one.  A
/// pair of a rank with itself ties nothing: it stands for an axis of one
/// element, on which the identity is the number one.
pub open spec fn names_rank(pairs: Seq<(usize, usize)>, rank: int) -> bool {
    exists|k: int|
        0 <= k < pairs.len() && (#[trigger] pairs[k]).0 != pairs[k].1 && (pairs[k].0 == rank
            || pairs[k].1 == rank)
}

/// One more than a rank, as far as shapes reach.
pub open spec fn rank_after(rank: usize) -> nat {
    if rank < usize::MAX {
        (rank + 1) as nat
    } else {
        usize::MAX as nat
    }
}

/// The number of axes of Kronecker deltas: one more than the largest rank
/// that stands in a pair.
pub open spec fn delta_rank(pairs: Seq<(usize, usize)>) -> nat
    decreases pairs.len(),
{
    if pairs.len() == 0 {
        0
    } else {
        let rest = delta_rank(pairs.drop_last());
        let pair = pairs.last();
        let here = if pair.0 > pair.1 {
            rank_after(pair.0)
        } else {
            rank_after(pair.1)
        };
        if here > rest {
            here
        } else {
            rest
        }
    }
}

/// The shape of Kronecker deltas: an axis that a pair ties to another one has
/// more than one element, every other axis has one.
pub open spec fn delta_sizes(pairs: Seq<(usize, usize)>) -> Seq<Size> {
    Seq::new(
        delta_rank(pairs),
        |rank: int|
            if names_rank(pairs, rank) {
                Size::Many
            } else {
                Size::One
            },
    )
}

/// The shape of a scalar-valued tree.  A binary node has the shape of its
/// left operand; an entry of a tensor has none.
pub open spec fn expr_sizes(e: ExprModel) -> Seq<Size>
    decreases e,
{
    match e {
        ExprModel::Symbol(_, sizes) => sizes,
        ExprModel::Constant(c) => c.sizes(),
        ExprModel::Add(l, _) => expr_sizes(*l),
        ExprModel::Sub(l, _) => expr_sizes(*l),
        ExprModel::Mul(l, _) => expr_sizes(*l),
        ExprModel::Div(l, _) => expr_sizes(*l),
        ExprModel::Neg(v) => expr_sizes(*v),
        ExprModel::Pow(b, _) => expr_sizes(*b),
        ExprModel::Transcendental(t) => trans_sizes(*t),
        ExprModel::Tensor(t) => tensor_sizes(*t),
        ExprModel::Matrix(m) => matrix_sizes(*m),
        ExprModel::TensorElement(_, _) => Seq::empty(),
    }
}

/// The shape of a transcendental tree.  A power and a logarithm have the
/// axes of both operands, one after the other.
pub open spec fn trans_sizes(t: TransModel) -> Seq<Size>
    decreases t,
{
    match t {
        TransModel::Abs(a) => expr_sizes(*a),
        TransModel::Pow(b, e) => expr_sizes(*b) + expr_sizes(*e),
        TransModel::Exp(a) => expr_sizes(*a),
        TransModel::Log(b, a) => expr_sizes(*b) + expr_sizes(*a),
        TransModel::Ln(a) => expr_sizes(*a),
        TransModel::Sin(a) => expr_sizes(*a),
        TransModel::Cos(a) => expr_sizes(*a),
        TransModel::Tan(a) => expr_sizes(*a),
    }
}

/// The shapes of a list of terms.
pub open spec fn term_sizes(terms: Seq<TensorModel>) -> Seq<Seq<Size>>
    decreases terms,
{
    Seq::new(
        terms.len(),
        |k: int|
            if 0 <= k < terms.len() {
                tensor_sizes(terms[k])
            } else {
                Seq::empty()
            },
    )
}

/// The shape of a tensor-valued tree.  Zero fits any shape and claims no
/// axis; Kronecker deltas have the axes that their pairs name.
pub open spec fn tensor_sizes(t: TensorModel) -> Seq<Size>
    decreases t,
{
    match t {
        TensorModel::Symbol(_, sizes) => sizes,
        TensorModel::Constant(c) => size_classes(tensor_shape(c)),
        TensorModel::Zero => Seq::empty(),
        TensorModel::KroneckerDeltas(pairs) => delta_sizes(pairs),
        TensorModel::Add(l, _) => tensor_sizes(*l),
        TensorModel::Sub(l, _) => tensor_sizes(*l),
        TensorModel::MulScalarLhs(_, r) => tensor_sizes(*r),
        TensorModel::MulScalarRhs(l, _) => tensor_sizes(*l),
        TensorModel::Neg(v) => tensor_sizes(*v),
        TensorModel::InnerProd { terms, rank_combinations } => inner_prod_sizes(
            term_sizes(terms),
            rank_combinations,
        ),
        TensorModel::Det(_) => Seq::empty(),
        TensorModel::Mat(m) => matrix_sizes(*m),
    }
}

/// The shape of a matrix-valued tree.  A transpose swaps two axes; a
/// determinant has none.
pub open spec fn matrix_sizes(m: MatrixModel) -> Seq<Size>
    decreases m,
{
    match m {
        MatrixModel::Mat(t) => tensor_sizes(*t),
        MatrixModel::Constant(c) => seq![size_class(matrix_rows(c)), size_class(matrix_cols(c))],
        MatrixModel::Transpose(v) => {
            let inner = matrix_sizes(*v);
            if inner.len() == 2 {
                seq![inner[1], inner[0]]
            } else {
                inner
            }
        },
        MatrixModel::Inverse(v) => matrix_sizes(*v),
        MatrixModel::Determinant(_) => Seq::empty(),
    }
}

/// The contents of a list of shapes.
pub open spec fn shapes_view(shapes: Vec<Vec<Size>>) -> Seq<Seq<Size>> {
    Seq::new(shapes.len() as nat, |k: int| shapes[k]@)
}

/// Whether a rank combination sums over `rank`.
pub fn is_contracted(combination: &Vec<(usize, usize)>, rank: usize) -> (r: bool)
    ensures
        r == contracts(combination@, rank as int),
{
    let mut j: usize = 0;
    while j < combination.len()
        invariant
            j <= combination.len(),
            forall|i: int| 0 <= i < j ==> (#[trigger] combination@[i]).0 != rank,
        decreases combination.len() - j,
    {
        if combination[j].0 == rank {
            return true;
        }
        j += 1;
    }
    false
}

/// Whether term `i` claims `rank`.
pub fn term_claims(
    shapes: &Vec<Vec<Size>>,
    combinations: &Vec<RankCombination>,
    i: usize,
    rank: usize,
) -> (r: bool)
    ensures
        r == claims(shapes_view(*shapes), combinations_view(*combinations), i as int, rank as int),
{
    if i >= shapes.len() {
        return false;
    }
    if rank >= shapes[i].len() {
        return false;
    }
    if !shapes[i][rank].is_many() {
        return false;
    }
    if i < combinations.len() {
        !is_contracted(&combinations[i], rank)
    } else {
        proof {
            assert(!contracts(Seq::<(usize, usize)>::empty(), rank as int));
        }
        true
    }
}

/// Whether some term claims `rank`.
pub fn is_claimed(shapes: &Vec<Vec<Size>>, combinations: &Vec<RankCombination>, rank: usize) -> (r:
    bool)
    ensures
        r == claimed(shapes_view(*shapes), combinations_view(*combinations), rank as int),
{
    let mut i: usize = 0;
    while i < shapes.len()
        invariant
            i <= shapes.len(),
            forall|j: int|
                0 <= j < i ==> !claims(
                    shapes_view(*shapes),
                    combinations_view(*combinations),
                    j,
                    rank as int,
                ),
        decreases shapes.len() - i,
    {
        if term_claims(shapes, combinations, i, rank) {
            return true;
        }
        i += 1;
    }
    false
}

/// The largest number of axes among the shapes.
pub fn longest_shape(shapes: &Vec<Vec<Size>>) -> (r: usize)
    ensures
        r == max_rank(shapes_view(*shapes)),
{
    let mut best: usize = 0;
    let mut i: usize = 0;
    while i < shapes.len()
        invariant
            i <= shapes.len(),
            best == max_rank(shapes_view(*shapes).subrange(0, i as int)),
        decreases shapes.len() - i,
    {
        proof {
            let next = shapes_view(*shapes).subrange(0, i + 1);
            assert(next.drop_last() =~= shapes_view(*shapes).subrange(0, i as int));
            assert(next.last() == shapes[i as int]@);
        }
        if shapes[i].len() > best {
            best = shapes[i].len();
        }
        i += 1;
    }
    proof {
        assert(shapes_view(*shapes).subrange(0, shapes.len() as int) =~= shapes_view(*shapes));
    }
    best
}

/// The shape of a contraction, from the shapes of its terms.
pub fn infer_sizes(shapes: &Vec<Vec<Size>>, combinations: &Vec<RankCombination>) -> (r: Vec<Size>)
    ensures
        r@ == inner_prod_sizes(shapes_view(*shapes), combinations_view(*combinations)),
{
    let longest = longest_shape(shapes);
    let mut out: Vec<Size> = Vec::new();
    let mut k: usize = 0;
    while k < longest
        invariant
            k <= longest,
            longest == max_rank(shapes_view(*shapes)),
            out@.len() == k,
            forall|j: int|
                0 <= j < k ==> out@[j] == if claimed(
                    shapes_view(*shapes),
                    combinations_view(*combinations),
                    j,
                ) {
                    Size::Many
                } else {
                    Size::One
                },
        decreases longest - k,
    {
        if is_claimed(shapes, combinations, k) {
            out.push(Size::Many);
        } else {
            out.push(Size::One);
        }
        k += 1;
    }
    proof {
        assert(out@ =~= inner_prod_sizes(
            shapes_view(*shapes),
            combinations_view(*combinations),
        ));
    }
    out
}

/// The number of axes with more than one element.
pub fn many_count(sizes: &Vec<Size>) -> (r: usize)
    ensures
        r == count_many(sizes@),
{
    let mut count: usize = 0;
    let mut k: usize = 0;
    while k < sizes.len()
        invariant
            k <= sizes.len(),
            count <= k,
            count == count_many(sizes@.subrange(0, k as int)),
        decreases sizes.len() - k,
    {
        proof {
            let next = sizes@.subrange(0, k + 1);
            assert(next.drop_last() =~= sizes@.subrange(0, k as int));
            assert(next.last() == sizes@[k as int]);
        }
        if sizes[k].is_many() {
            count += 1;
        }
        k += 1;
    }
    proof {
        assert(sizes@.subrange(0, sizes.len() as int) =~= sizes@);
    }
    count
}

/// Whether two shapes are the same.
pub fn same_sizes(a: &Vec<Size>, b: &Vec<Size>) -> (r: bool)
    ensures
        r == (a@ == b@),
{
    if a.len() != b.len() {
        return false;
    }
    let mut k: usize = 0;
    while k < a.len()
        invariant
            a.len() == b.len(),
            k <= a.len(),
            forall|j: int| 0 <= j < k ==> a@[j] == b@[j],
        decreases a.len() - k,
    {
        if a[k].is_many() != b[k].is_many() {
            return false;
        }
        k += 1;
    }
    proof {
        assert(a@ =~= b@);
    }
    true
}

/// Whether a pair of the Kronecker deltas ties the rank to another one.
pub fn is_named(pairs: &Vec<(usize, usize)>, rank: usize) -> (r: bool)
    ensures
        r == names_rank(pairs@, rank as int),
{
    let mut k: usize = 0;
    while k < pairs.len()
        invariant
            k <= pairs.len(),
            forall|j: int|
                0 <= j < k ==> (#[trigger] pairs@[j]).0 == pairs@[j].1 || (pairs@[j].0 != rank
                    && pairs@[j].1 != rank),
        decreases pairs.len() - k,
    {
        if pairs[k].0 != pairs[k].1 && (pairs[k].0 == rank || pairs[k].1 == rank) {
            return true;
        }
        k += 1;
    }
    false
}

/// The shape of Kronecker deltas.
pub fn delta_shape(pairs: &Vec<(usize, usize)>) -> (r: Vec<Size>)
    ensures
        r@ == delta_sizes(pairs@),
{
    let mut count: usize = 0;
    let mut k: usize = 0;
    while k < pairs.len()
        invariant
            k <= pairs.len(),
            count == delta_rank(pairs@.subrange(0, k as int)),
        decreases pairs.len() - k,
    {
        proof {
            let next = pairs@.subrange(0, k + 1);
            assert(next.drop_last() =~= pairs@.subrange(0, k as int));
            assert(next.last() == pairs@[k as int]);
        }
        let top = if pairs[k].0 > pairs[k].1 {
            pairs[k].0
        } else {
            pairs[k].1
        };
        let here = if top < usize::MAX {
            top + 1
        } else {
            usize::MAX
        };
        if here > count {
            count = here;
        }
        k += 1;
    }
    proof {
        assert(pairs@.subrange(0, pairs.len() as int) =~= pairs@);
    }
    let mut out: Vec<Size> = Vec::new();
    let mut rank: usize = 0;
    while rank < count
        invariant
            rank <= count,
            count == delta_rank(pairs@),
            out@.len() == rank,
            forall|q: int|
                0 <= q < rank ==> out@[q] == if names_rank(pairs@, q) {
                    Size::Many
                } else {
                    Size::One
                },
        decreases count - rank,
    {
        if is_named(pairs, rank) {
            out.push(Size::Many);
        } else {
            out.push(Size::One);
        }
        rank += 1;
    }
    proof {
        assert(out@ =~= delta_sizes(pairs@));
    }
    out
}

/// The shapes of a list of terms.
pub fn shapes_of(terms: &Vec<TensorExpression>) -> (r: Vec<Vec<Size>>)
    ensures
        shapes_view(r) == term_sizes(terms_view(*terms)),
    decreases terms,
{
    let mut out: Vec<Vec<Size>> = Vec::new();
    let mut k: usize = 0;
    while k < terms.len()
        invariant
            k <= terms.len(),
            out.len() == k,
            forall|j: int| 0 <= j < k ==> out[j]@ == tensor_sizes(terms[j]@),
        decreases terms.len() - k,
    {
        out.push(terms[k].sizes());
        k += 1;
    }
    proof {
        assert(shapes_view(out) =~= term_sizes(terms_view(*terms)));
    }
    out
}

impl Expression {
    /// The shape of the tree.
    pub fn sizes(&self) -> (r: Vec<Size>)
        ensures
            r@ == expr_sizes(self@),
        decreases self,
    {
        match self {
            Expression::Symbol(_, sizes) => copy_sizes(sizes),
            Expression::Constant(c) => c.size_classes(),
            Expression::Add(l, _) => l.sizes(),
            Expression::Sub(l, _) => l.sizes(),
            Expression::Mul(l, _) => l.sizes(),
            Expression::Div(l, _) => l.sizes(),
            Expression::Neg(v) => v.sizes(),
            Expression::Pow(b, _) => b.sizes(),
            Expression::Transcendental(t) => t.sizes(),
            Expression::Tensor(t) => t.sizes(),
            Expression::Matrix(m) => m.sizes(),
            Expression::TensorElement(_, _) => Vec::new(),
        }
    }

    /// Whether the tree and a tensor-valued tree have one shape, a tree
    /// without axes fitting any.
    pub fn is_same_size(&self, other: &TensorExpression) -> (r: bool)
        ensures
            r == (expr_sizes(self@).len() == 0 || tensor_sizes(other@).len() == 0 || expr_sizes(
                self@,
            ) == tensor_sizes(other@)),
    {
        let sl = self.sizes();
        let sr = other.sizes();
        if sl.len() == 0 || sr.len() == 0 {
            return true;
        }
        same_sizes(&sl, &sr)
    }

    /// The number of axes of the tree that have more than one element.
    pub fn not_1dimension_ranks(&self) -> (r: usize)
        ensures
            r == count_many(expr_sizes(self@)),
    {
        let sizes = self.sizes();
        many_count(&sizes)
    }
}

/// Two shapes, one after the other.
fn join_sizes(a: Vec<Size>, b: &Vec<Size>) -> (r: Vec<Size>)
    ensures
        r@ == a@ + b@,
{
    let mut out = a;
    let mut k: usize = 0;
    while k < b.len()
        invariant
            k <= b.len(),
            out@ == a@ + b@.subrange(0, k as int),
        decreases b.len() - k,
    {
        out.push(b[k]);
        proof {
            assert(out@ =~= a@ + b@.subrange(0, k + 1));
        }
        k += 1;
    }
    proof {
        assert(b@.subrange(0, b.len() as int) =~= b@);
    }
    out
}

impl TranscendentalExpression {
    /// The shape of the tree.
    pub fn sizes(&self) -> (r: Vec<Size>)
        ensures
            r@ == trans_sizes(self@),
        decreases self,
    {
        match self {
            TranscendentalExpression::Abs(a) => a.sizes(),
            TranscendentalExpression::Pow(b, e) => {
                let right = e.sizes();
                join_sizes(b.sizes(), &right)
            },
            TranscendentalExpression::Exp(a) => a.sizes(),
            TranscendentalExpression::Log(b, a) => {
                let right = a.sizes();
                join_sizes(b.sizes(), &right)
            },
            TranscendentalExpression::Ln(a) => a.sizes(),
            TranscendentalExpression::Sin(a) => a.sizes(),
            TranscendentalExpression::Cos(a) => a.sizes(),
            TranscendentalExpression::Tan(a) => a.sizes(),
        }
    }
}

impl TensorExpression {
    /// The shape of the tree.
    pub fn sizes(&self) -> (r: Vec<Size>)
        ensures
            r@ == tensor_sizes(self@),
        decreases self,
    {
        match self {
            TensorExpression::Symbol(_, sizes) => copy_sizes(sizes),
            TensorExpression::Constant(c) => {
                let c = c.value();
                let dims = tensor_dimensions(c);
                classify_shape(&dims)
            },
            TensorExpression::Zero => Vec::new(),
            TensorExpression::KroneckerDeltas(pairs) => delta_shape(pairs),
            TensorExpression::Add(l, _) => l.sizes(),
            TensorExpression::Sub(l, _) => l.sizes(),
            TensorExpression::MulScalarLhs(_, r) => r.sizes(),
            TensorExpression::MulScalarRhs(l, _) => l.sizes(),
            TensorExpression::Neg(v) => v.sizes(),
            TensorExpression::InnerProd { terms, rank_combinations } => {
                proof {
                    lemma_inner_prod_model(*self);
                }
                let shapes = shapes_of(terms);
                infer_sizes(&shapes, rank_combinations)
            },
            TensorExpression::Det(_) => Vec::new(),
            TensorExpression::Mat(m) => m.sizes(),
        }
    }

    /// The shape of the contraction of `terms` under `rank_combinations`.
    pub fn size_inner_prod(
        terms: &Vec<TensorExpression>,
        rank_combinations: &Vec<RankCombination>,
    ) -> (r: Vec<Size>)
        ensures
            r@ == tensor_sizes(
                TensorModel::InnerProd {
                    terms: terms_view(*terms),
                    rank_combinations: combinations_view(*rank_combinations),
                },
            ),
    {
        let shapes = shapes_of(terms);
        infer_sizes(&shapes, rank_combinations)
    }
}

impl MatrixExpression {
    /// The shape of the tree.
    pub fn sizes(&self) -> (r: Vec<Size>)
        ensures
            r@ == matrix_sizes(self@),
        decreases self,
    {
        match self {
            MatrixExpression::Mat(t) => t.sizes(),
            MatrixExpression::Constant(c) => {
                let c = c.value();
                let mut out: Vec<Size> = Vec::new();
                out.push(Size::of(matrix_row_count(c)));
                out.push(Size::of(matrix_col_count(c)));
                proof {
                    assert(out@ =~= seq![
                        size_class(matrix_rows(*c)),
                        size_class(matrix_cols(*c)),
                    ]);
                }
                out
            },
            MatrixExpression::Transpose(v) => {
                let inner = v.sizes();
                if inner.len() == 2 {
                    let mut out: Vec<Size> = Vec::new();
                    out.push(inner[1]);
                    out.push(inner[0]);
                    proof {
                        assert(out@ =~= seq![inner@[1], inner@[0]]);
                    }
                    out
                } else {
                    inner
                }
            },
            MatrixExpression::Inverse(v) => v.sizes(),
            MatrixExpression::Determinant(_) => Vec::new(),
        }
    }
}

} // verus!
