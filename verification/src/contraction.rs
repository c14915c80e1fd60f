//! The index-contraction engine: it builds the node that stands for the sum,
//! over paired ranks, of the product of several tensor-valued terms.
//!
//! A contraction never holds another one as a term: a nested contraction is
//! absorbed, those of its identifiers that are in use outside it moved out
//! of the way, and every outer contraction of one of its ranks is rewired
//! onto the one term of it that claims that rank.  A contraction of numeric
//! terms and Kronecker deltas is folded into one numeric tensor where the
//! provider can do it.

use crate::constant_value::NumericTensor;
use crate::constant_value::tensor_dimensions;
use crate::constant_value::ConstantModel;
use crate::constant_value::ConstantValue;
use crate::constant_value::Scalar;
use crate::constant_value::ScalarModel;
use crate::error::AlgebraError;
use crate::expression::combinations_view;
use crate::expression::copy_pairs;
use crate::expression::lemma_inner_prod_model;
use crate::expression::tensor_outcome;
use crate::expression::terms_view;
use crate::expression::ExprModel;
use crate::expression::Expression;
use crate::expression::RankCombination;
use crate::expression::TensorExpression;
use crate::expression::TensorModel;
use crate::folding::fold_numeric;
use crate::laws::law_rows_distinct;
use crate::folding::folded_of;
use crate::provider::contractible;
use crate::provider::tensor_cell;
use crate::provider::tensor_copy;
use crate::provider::tensor_delta_product;
use crate::provider::tensor_element;
use crate::provider::tensor_mul_delta;
use crate::provider::tensor_shape;
use crate::provider::tensor_sound;
use crate::provider::TensorValue;
use crate::shape::claimed;
use crate::shape::claims;
use std::collections::HashMap;
use crate::shape::combination_at;
use crate::shape::shapes_of;
use crate::shape::shapes_view;
use crate::shape::term_claims;
use crate::shape::term_sizes;
use crate::size::Size;
use crate::tensor_ops::mul_scalar;
use vstd::prelude::*;

verus! {

/// One more than the largest identifier of a rank combination; 0 for an
/// empty one.
pub open spec fn fresh_in(combination: Seq<(usize, usize)>) -> nat
    decreases combination.len(),
{
    if combination.len() == 0 {
        0
    } else {
        let rest = fresh_in(combination.drop_last());
        let here = (combination.last().1 + 1) as nat;
        if here > rest {
            here
        } else {
            rest
        }
    }
}

/// One more than the largest identifier of a list of rank combinations.
pub open spec fn fresh_id(combinations: Seq<Seq<(usize, usize)>>) -> nat
    decreases combinations.len(),
{
    if combinations.len() == 0 {
        0
    } else {
        let rest = fresh_id(combinations.drop_last());
        let here = fresh_in(combinations.last());
        if here > rest {
            here
        } else {
            rest
        }
    }
}

/// Whether an identifier stands in one of the rank combinations.
pub open spec fn occurs(combinations: Seq<Seq<(usize, usize)>>, id: usize) -> bool {
    exists|k: int, j: int|
        0 <= k < combinations.len() && 0 <= j < combinations[k].len() && (
        #[trigger] combinations[k][j]).1 == id
}

/// Whether an identifier of an absorbed contraction is in use outside it:
/// in the rank combinations of the contraction that absorbs, or in what was
/// flattened before.
pub open spec fn taken(
    outer: Seq<Seq<(usize, usize)>>,
    done: Seq<Seq<(usize, usize)>>,
    id: usize,
) -> bool {
    occurs(outer, id) || occurs(done, id)
}

/// A rank combination of an absorbed contraction: an identifier that is in
/// use outside is moved up by `shift`, every other one is kept.
pub open spec fn renamed(
    combination: Seq<(usize, usize)>,
    shift: nat,
    outer: Seq<Seq<(usize, usize)>>,
    done: Seq<Seq<(usize, usize)>>,
) -> Seq<(usize, usize)> {
    Seq::new(
        combination.len(),
        |j: int|
            (
                combination[j].0,
                if taken(outer, done, combination[j].1) {
                    (combination[j].1 + shift) as usize
                } else {
                    combination[j].1
                },
            ),
    )
}

/// The first term from `from` on that claims `rank`; the number of terms if
/// none does.
pub open spec fn first_claimant(
    shapes: Seq<Seq<Size>>,
    combinations: Seq<Seq<(usize, usize)>>,
    rank: int,
    from: int,
) -> int
    decreases shapes.len() - from,
{
    if from < 0 || from >= shapes.len() {
        shapes.len() as int
    } else if claims(shapes, combinations, from, rank) {
        from
    } else {
        first_claimant(shapes, combinations, rank, from + 1)
    }
}

/// The one term that claims `rank`, if there is exactly one.
pub open spec fn sole_claimant(
    shapes: Seq<Seq<Size>>,
    combinations: Seq<Seq<(usize, usize)>>,
    rank: int,
) -> Option<int> {
    let first = first_claimant(shapes, combinations, rank, 0);
    if first < shapes.len() && first_claimant(shapes, combinations, rank, first + 1)
        == shapes.len() {
        Some(first)
    } else {
        None
    }
}

/// Whether two terms claim one rank.
pub open spec fn conflict(shapes: Seq<Seq<Size>>, combinations: Seq<Seq<(usize, usize)>>) -> bool {
    exists|rank: int, i: int, j: int|
        i < j && #[trigger] claims(shapes, combinations, i, rank) && #[trigger] claims(
            shapes,
            combinations,
            j,
            rank,
        )
}

/// The rank combinations of an absorbed contraction, from entry `j` of the
/// outer combination on: each outer entry is added to the term that alone
/// claims its rank.  With no such term, or several, the contraction is
/// ambiguous.
pub open spec fn rewire(
    shapes: Seq<Seq<Size>>,
    inner: Seq<Seq<(usize, usize)>>,
    current: Seq<Seq<(usize, usize)>>,
    outer: Seq<(usize, usize)>,
    j: int,
) -> Result<Seq<Seq<(usize, usize)>>, AlgebraError>
    decreases outer.len() - j,
{
    if j < 0 || j >= outer.len() {
        Ok(current)
    } else {
        match sole_claimant(shapes, inner, outer[j].0 as int) {
            None => Err(AlgebraError::AmbiguousContraction),
            Some(owner) => if 0 <= owner < current.len() {
                rewire(
                    shapes,
                    inner,
                    current.update(owner, current[owner].push(outer[j])),
                    outer,
                    j + 1,
                )
            } else {
                Err(AlgebraError::AmbiguousContraction)
            },
        }
    }
}

/// The rank combinations of the terms of an absorbed contraction before the
/// outer entries are rewired: its own, the identifiers that are in use
/// outside moved up by `shift`.
pub open spec fn lifted(
    inner: Seq<Seq<(usize, usize)>>,
    count: nat,
    shift: nat,
    outer: Seq<Seq<(usize, usize)>>,
    done: Seq<Seq<(usize, usize)>>,
) -> Seq<Seq<(usize, usize)>> {
    Seq::new(count, |k: int| renamed(combination_at(inner, k), shift, outer, done))
}

/// How far the colliding identifiers of an absorbed contraction are moved
/// up: above every identifier in use (`next`) and above its own.
pub open spec fn shift_for(next: nat, span: nat) -> nat {
    if next > span {
        next
    } else {
        span
    }
}

/// Terms with their rank combinations.
pub struct Flat {
    pub terms: Seq<TensorModel>,
    pub combinations: Seq<Seq<(usize, usize)>>,
}

/// The flattening of the terms from `i` on, behind what was flattened before
/// (`done`).  A term that is a contraction gives its terms in its place; an
/// identifier of it that is in use outside it is moved above every
/// identifier seen so far (`next`), every other one is kept.  Any other term
/// is kept with its combination.
pub open spec fn flatten_from(
    terms: Seq<TensorModel>,
    combinations: Seq<Seq<(usize, usize)>>,
    i: int,
    next: nat,
    done: Flat,
) -> Result<Flat, AlgebraError>
    decreases terms.len() - i,
{
    if i < 0 || i >= terms.len() {
        Ok(done)
    } else {
        match terms[i] {
            TensorModel::InnerProd { terms: inner_terms, rank_combinations } => {
                let span = fresh_id(rank_combinations);
                let shift = shift_for(next, span);
                if shift + span > usize::MAX {
                    Err(AlgebraError::IndexOutOfRange)
                } else {
                    match rewire(
                        term_sizes(inner_terms),
                        rank_combinations,
                        lifted(
                            rank_combinations,
                            inner_terms.len(),
                            shift,
                            combinations,
                            done.combinations,
                        ),
                        combination_at(combinations, i),
                        0,
                    ) {
                        Err(e) => Err(e),
                        Ok(rows) => flatten_from(
                            terms,
                            combinations,
                            i + 1,
                            shift + span,
                            Flat {
                                terms: done.terms + inner_terms,
                                combinations: done.combinations + rows,
                            },
                        ),
                    }
                }
            },
            other => flatten_from(
                terms,
                combinations,
                i + 1,
                next,
                Flat {
                    terms: done.terms.push(other),
                    combinations: done.combinations.push(combination_at(combinations, i)),
                },
            ),
        }
    }
}

/// No rank stands twice in a rank combination.
pub open spec fn distinct_ranks(combination: Seq<(usize, usize)>) -> bool {
    forall|i: int, j: int|
        0 <= i < j < combination.len() ==> (#[trigger] combination[i]).0 != (
        #[trigger] combination[j]).0
}

/// No rank stands twice in any of the rank combinations.
pub open spec fn rows_distinct(combinations: Seq<Seq<(usize, usize)>>) -> bool {
    forall|k: int| 0 <= k < combinations.len() ==> distinct_ranks(#[trigger] combinations[k])
}

/// No rank stands twice in a rank combination of a nested contraction.
pub open spec fn nested_distinct(terms: Seq<TensorModel>) -> bool {
    forall|k: int|
        0 <= k < terms.len() && (#[trigger] terms[k]) is InnerProd ==> rows_distinct(
            terms[k]->rank_combinations,
        )
}

/// Whether a term is the zero tensor.
pub open spec fn has_zero(terms: Seq<TensorModel>) -> bool {
    exists|i: int| 0 <= i < terms.len() && #[trigger] terms[i] is Zero
}

/// What the fusion of the Kronecker deltas has gathered.
pub struct Fusion {
    pub pairs: Seq<(usize, usize)>,
    pub combination: Seq<(usize, usize)>,
    pub found: bool,
    pub rest: Flat,
}

/// The fusion from term `i` on: the pairs of every term of Kronecker deltas
/// are gathered in order, and so are the entries of their rank
/// combinations; the other terms are kept with their combinations.
pub open spec fn fuse_from(flat: Flat, i: int, done: Fusion) -> Fusion
    decreases flat.terms.len() - i,
{
    if i < 0 || i >= flat.terms.len() {
        done
    } else {
        match flat.terms[i] {
            TensorModel::KroneckerDeltas(pairs) => fuse_from(
                flat,
                i + 1,
                Fusion {
                    pairs: done.pairs + pairs,
                    combination: done.combination + combination_at(flat.combinations, i),
                    found: true,
                    rest: done.rest,
                },
            ),
            other => fuse_from(
                flat,
                i + 1,
                Fusion {
                    pairs: done.pairs,
                    combination: done.combination,
                    found: done.found,
                    rest: Flat {
                        terms: done.rest.terms.push(other),
                        combinations: done.rest.combinations.push(
                            combination_at(flat.combinations, i),
                        ),
                    },
                },
            ),
        }
    }
}

/// What the fusion gathers from flattened terms.
pub open spec fn gathered(flat: Flat) -> Fusion {
    fuse_from(
        flat,
        0,
        Fusion {
            pairs: Seq::empty(),
            combination: Seq::empty(),
            found: false,
            rest: Flat { terms: Seq::empty(), combinations: Seq::empty() },
        },
    )
}

/// The terms of what the fusion gathered: all terms of Kronecker deltas
/// become one, which stands first; the others follow in their order.
pub open spec fn fused_terms(fusion: Fusion) -> Seq<TensorModel> {
    if fusion.found {
        seq![TensorModel::KroneckerDeltas(fusion.pairs)] + fusion.rest.terms
    } else {
        fusion.rest.terms
    }
}

/// The rank combinations of what the fusion gathered: the one term of
/// Kronecker deltas has all their contractions, so that it stays known what
/// each delta is contracted with; the others keep their own.
pub open spec fn fused_rows(fusion: Fusion) -> Seq<Seq<(usize, usize)>> {
    if fusion.found {
        seq![fusion.combination] + fusion.rest.combinations
    } else {
        fusion.rest.combinations
    }
}

/// The contraction node of what the fusion gathered.
pub open spec fn assembled(fusion: Fusion) -> TensorModel {
    TensorModel::InnerProd {
        terms: fused_terms(fusion),
        rank_combinations: fused_rows(fusion),
    }
}

/// The contraction node of flattened terms, the Kronecker deltas fused.
pub open spec fn fused(flat: Flat) -> TensorModel {
    assembled(gathered(flat))
}

/// The numeric tensor that flattened terms fold to.
pub open spec fn folded(flat: Flat) -> Option<TensorValue> {
    folded_of(gathered(flat))
}

/// The contraction of `terms` under `combinations`.
///
/// It needs as many combinations as terms, and a term.  First the nested
/// contractions are absorbed, which fails where a rewiring is ambiguous or
/// the identifiers run out.  Then a zero term makes the whole zero.  Else
/// no rank may stand twice in a rank combination, of the contraction or of
/// a nested one.  Numeric terms and Kronecker deltas are folded into one
/// numeric tensor where the provider can.  Else the Kronecker deltas are
/// fused into one term, which is ambiguous where two of them contract one
/// rank: the one term could not say with what.  At last two of the fused
/// terms that claim one rank are a shape error.
pub open spec fn contraction(
    terms: Seq<TensorModel>,
    combinations: Seq<Seq<(usize, usize)>>,
) -> Result<TensorModel, AlgebraError> {
    if terms.len() == 0 || terms.len() != combinations.len() {
        Err(AlgebraError::ShapeMismatch)
    } else if fresh_id(combinations) > usize::MAX {
        Err(AlgebraError::IndexOutOfRange)
    } else {
        match flatten_from(
            terms,
            combinations,
            0,
            fresh_id(combinations),
            Flat { terms: Seq::empty(), combinations: Seq::empty() },
        ) {
            Err(e) => Err(e),
            Ok(flat) => if has_zero(flat.terms) {
                Ok(TensorModel::Zero)
            } else if !rows_distinct(combinations) || !nested_distinct(terms) {
                Err(AlgebraError::ShapeMismatch)
            } else if folded(flat) is Some {
                Ok(TensorModel::Constant(folded(flat)->0))
            } else if !distinct_ranks(gathered(flat).combination) {
                Err(AlgebraError::AmbiguousContraction)
            } else if conflict(
                term_sizes(fused_terms(gathered(flat))),
                fused_rows(gathered(flat)),
            ) {
                Err(AlgebraError::ShapeMismatch)
            } else {
                Ok(fused(flat))
            },
        }
    }
}

/// Whether every axis of a shape has one element.
pub open spec fn single_element(shape: Seq<usize>) -> bool {
    forall|k: int| 0 <= k < shape.len() ==> (#[trigger] shape[k]) == 1
}

/// The index of the first cell of a tensor with `rank` axes.
pub open spec fn origin(rank: nat) -> Seq<usize> {
    Seq::new(rank, |k: int| 0usize)
}

/// A numeric tensor multiplied by the Kronecker deltas from `k` on.  A delta
/// needs both its ranks among the axes of the tensor, and an axis of one
/// element to move the other one to.
pub open spec fn apply_deltas(t: TensorValue, deltas: Seq<(usize, usize)>, k: int) -> Result<
    TensorValue,
    AlgebraError,
>
    decreases deltas.len() - k,
{
    if k < 0 || k >= deltas.len() {
        Ok(t)
    } else {
        let first = deltas[k].0;
        let second = deltas[k].1;
        let shape = tensor_shape(t);
        if first >= shape.len() || second >= shape.len() {
            Err(AlgebraError::IndexOutOfRange)
        } else if first < second && shape[second as int] != 1 {
            Err(AlgebraError::ShapeMismatch)
        } else if second < first && shape[first as int] != 1 {
            Err(AlgebraError::ShapeMismatch)
        } else {
            match tensor_delta_product(t, first, second) {
                None => Err(AlgebraError::ShapeMismatch),
                Some(next) => apply_deltas(next, deltas, k + 1),
            }
        }
    }
}

/// The rank combination of one side of a list of rank pairs: pair `k` is the
/// contraction with the identifier `k`.
pub open spec fn pair_combination(pairs: Seq<(usize, usize)>, right: bool) -> Seq<(usize, usize)> {
    Seq::new(
        pairs.len(),
        |k: int|
            (
                if right {
                    pairs[k].1
                } else {
                    pairs[k].0
                },
                k as usize,
            ),
    )
}

/// The scalar constant that holds the one cell of a tensor.
pub open spec fn first_cell(t: TensorValue) -> ExprModel {
    ExprModel::Constant(
        ConstantModel::Scalar(
            ScalarModel::of(tensor_element(t, origin(tensor_shape(t).len()))),
        ),
    )
}

/// The contraction of two trees over pairs of ranks, the first rank of each
/// pair being one of `l` and the second one of `r`.
///
/// A numeric tensor and Kronecker deltas are multiplied by the provider.  A
/// numeric tensor of one cell becomes a scalar factor.  Everything else is
/// the contraction of the two terms, pair `k` under the identifier `k`; it
/// is there that a zero operand makes the whole zero.
pub open spec fn inner_product(l: TensorModel, r: TensorModel, pairs: Seq<(usize, usize)>) -> Result<
    TensorModel,
    AlgebraError,
> {
    if l is Constant && r is KroneckerDeltas {
        match apply_deltas(l->Constant_0, r->KroneckerDeltas_0, 0) {
            Ok(t) => Ok(TensorModel::Constant(t)),
            Err(e) => Err(e),
        }
    } else if l is KroneckerDeltas && r is Constant {
        match apply_deltas(r->Constant_0, l->KroneckerDeltas_0, 0) {
            Ok(t) => Ok(TensorModel::Constant(t)),
            Err(e) => Err(e),
        }
    } else if l is Constant && single_element(tensor_shape(l->Constant_0)) {
        r.scale(first_cell(l->Constant_0), false)
    } else if r is Constant && single_element(tensor_shape(r->Constant_0)) {
        l.scale(first_cell(r->Constant_0), true)
    } else {
        contraction(seq![l, r], seq![pair_combination(pairs, false), pair_combination(pairs, true)])
    }
}

/// Every identifier of a combination is below `fresh_in` of it.
pub proof fn lemma_fresh_in_bounds(combination: Seq<(usize, usize)>, j: int)
    requires
        0 <= j < combination.len(),
    ensures
        combination[j].1 < fresh_in(combination),
    decreases combination.len(),
{
    if j < combination.len() - 1 {
        lemma_fresh_in_bounds(combination.drop_last(), j);
    }
}

/// `fresh_id` of a list is at least `fresh_in` of each of its combinations.
pub proof fn lemma_fresh_id_bounds(combinations: Seq<Seq<(usize, usize)>>, k: int)
    requires
        0 <= k < combinations.len(),
    ensures
        fresh_in(combinations[k]) <= fresh_id(combinations),
    decreases combinations.len(),
{
    if k < combinations.len() - 1 {
        lemma_fresh_id_bounds(combinations.drop_last(), k);
    }
}

/// One more than the largest identifier of a combination, or `None` where
/// that is beyond the machine's integers.
fn fresh_in_combination(combination: &Vec<(usize, usize)>) -> (r: Option<usize>)
    ensures
        r is Some ==> r->0 == fresh_in(combination@),
        r is None ==> fresh_in(combination@) > usize::MAX,
{
    let mut best: usize = 0;
    let mut j: usize = 0;
    while j < combination.len()
        invariant
            j <= combination.len(),
            best == fresh_in(combination@.subrange(0, j as int)),
        decreases combination.len() - j,
    {
        proof {
            let next = combination@.subrange(0, j + 1);
            assert(next.drop_last() =~= combination@.subrange(0, j as int));
            assert(next.last() == combination@[j as int]);
            if combination@[j as int].1 == usize::MAX {
                lemma_fresh_in_bounds(combination@, j as int);
            }
        }
        if combination[j].1 == usize::MAX {
            return None;
        }
        let here = combination[j].1 + 1;
        if here > best {
            best = here;
        }
        j += 1;
    }
    proof {
        assert(combination@.subrange(0, combination.len() as int) =~= combination@);
    }
    Some(best)
}

/// One more than the largest identifier of a list of combinations, or `None`
/// where that is beyond the machine's integers.
fn fresh_identifier(combinations: &Vec<RankCombination>) -> (r: Option<usize>)
    ensures
        r is Some ==> r->0 == fresh_id(combinations_view(*combinations)),
        r is None ==> fresh_id(combinations_view(*combinations)) > usize::MAX,
{
    let mut best: usize = 0;
    let mut k: usize = 0;
    while k < combinations.len()
        invariant
            k <= combinations.len(),
            best == fresh_id(combinations_view(*combinations).subrange(0, k as int)),
        decreases combinations.len() - k,
    {
        proof {
            let next = combinations_view(*combinations).subrange(0, k + 1);
            assert(next.drop_last() =~= combinations_view(*combinations).subrange(0, k as int));
            assert(next.last() == combinations[k as int]@);
        }
        match fresh_in_combination(&combinations[k]) {
            None => {
                proof {
                    lemma_fresh_id_bounds(combinations_view(*combinations), k as int);
                }
                return None;
            },
            Some(here) => {
                if here > best {
                    best = here;
                }
            },
        }
        k += 1;
    }
    proof {
        assert(combinations_view(*combinations).subrange(0, combinations.len() as int)
            =~= combinations_view(*combinations));
    }
    Some(best)
}

/// Whether an identifier stands in one of the rank combinations.
pub fn occurs_in(combinations: &Vec<RankCombination>, id: usize) -> (r: bool)
    ensures
        r == occurs(combinations_view(*combinations), id),
{
    let ghost c = combinations_view(*combinations);
    let mut k: usize = 0;
    while k < combinations.len()
        invariant
            k <= combinations.len(),
            c == combinations_view(*combinations),
            forall|a: int, b: int|
                0 <= a < k && 0 <= b < c[a].len() ==> (#[trigger] c[a][b]).1 != id,
        decreases combinations.len() - k,
    {
        let mut j: usize = 0;
        while j < combinations[k].len()
            invariant
                k < combinations.len(),
                j <= combinations[k as int].len(),
                c == combinations_view(*combinations),
                forall|b: int| 0 <= b < j ==> (#[trigger] c[k as int][b]).1 != id,
            decreases combinations[k as int].len() - j,
        {
            if combinations[k][j].1 == id {
                proof {
                    assert(c[k as int][j as int].1 == id);
                }
                return true;
            }
            j += 1;
        }
        k += 1;
    }
    false
}

/// A copy of a combination of an absorbed contraction, the identifiers that
/// are in use outside moved up by `shift`.
fn rename_combination(
    combination: &Vec<(usize, usize)>,
    shift: usize,
    outer: &Vec<RankCombination>,
    done: &Vec<RankCombination>,
) -> (r: Vec<(usize, usize)>)
    requires
        fresh_in(combination@) + shift <= usize::MAX,
    ensures
        r@ == renamed(
            combination@,
            shift as nat,
            combinations_view(*outer),
            combinations_view(*done),
        ),
{
    let mut out: Vec<(usize, usize)> = Vec::new();
    let mut j: usize = 0;
    while j < combination.len()
        invariant
            j <= combination.len(),
            fresh_in(combination@) + shift <= usize::MAX,
            out@.len() == j,
            forall|i: int|
                0 <= i < j ==> out@[i] == (
                    combination@[i].0,
                    if taken(
                        combinations_view(*outer),
                        combinations_view(*done),
                        combination@[i].1,
                    ) {
                        (combination@[i].1 + shift) as usize
                    } else {
                        combination@[i].1
                    },
                ),
        decreases combination.len() - j,
    {
        proof {
            lemma_fresh_in_bounds(combination@, j as int);
        }
        let id = combination[j].1;
        if occurs_in(outer, id) || occurs_in(done, id) {
            out.push((combination[j].0, id + shift));
        } else {
            out.push((combination[j].0, id));
        }
        j += 1;
    }
    proof {
        assert(out@ =~= renamed(
            combination@,
            shift as nat,
            combinations_view(*outer),
            combinations_view(*done),
        ));
    }
    out
}

/// The combinations of the terms of an absorbed contraction, the
/// identifiers that are in use outside moved up by `shift`.
fn lift_combinations(
    inner: &Vec<RankCombination>,
    count: usize,
    shift: usize,
    outer: &Vec<RankCombination>,
    done: &Vec<RankCombination>,
) -> (r: Vec<RankCombination>)
    requires
        fresh_id(combinations_view(*inner)) + shift <= usize::MAX,
    ensures
        combinations_view(r) == lifted(
            combinations_view(*inner),
            count as nat,
            shift as nat,
            combinations_view(*outer),
            combinations_view(*done),
        ),
        r.len() == count,
{
    let mut out: Vec<RankCombination> = Vec::new();
    let mut k: usize = 0;
    while k < count
        invariant
            k <= count,
            fresh_id(combinations_view(*inner)) + shift <= usize::MAX,
            out.len() == k,
            forall|i: int|
                0 <= i < k ==> out[i]@ == renamed(
                    combination_at(combinations_view(*inner), i),
                    shift as nat,
                    combinations_view(*outer),
                    combinations_view(*done),
                ),
        decreases count - k,
    {
        if k < inner.len() {
            proof {
                lemma_fresh_id_bounds(combinations_view(*inner), k as int);
            }
            out.push(rename_combination(&inner[k], shift, outer, done));
        } else {
            let empty: Vec<(usize, usize)> = Vec::new();
            proof {
                assert(empty@ =~= renamed(
                    Seq::<(usize, usize)>::empty(),
                    shift as nat,
                    combinations_view(*outer),
                    combinations_view(*done),
                ));
            }
            out.push(empty);
        }
        k += 1;
    }
    proof {
        assert(combinations_view(out) =~= lifted(
            combinations_view(*inner),
            count as nat,
            shift as nat,
            combinations_view(*outer),
            combinations_view(*done),
        ));
    }
    out
}

/// The first term from `from` on that claims `rank`; the number of terms if
/// none does.
pub fn find_claimant(
    shapes: &Vec<Vec<Size>>,
    combinations: &Vec<RankCombination>,
    rank: usize,
    from: usize,
) -> (r: usize)
    ensures
        r == first_claimant(
            shapes_view(*shapes),
            combinations_view(*combinations),
            rank as int,
            from as int,
        ),
        r <= shapes.len(),
{
    let mut i: usize = from;
    while i < shapes.len()
        invariant
            from <= i,
            first_claimant(
                shapes_view(*shapes),
                combinations_view(*combinations),
                rank as int,
                from as int,
            ) == first_claimant(
                shapes_view(*shapes),
                combinations_view(*combinations),
                rank as int,
                i as int,
            ),
        decreases shapes.len() - i,
    {
        if term_claims(shapes, combinations, i, rank) {
            return i;
        }
        i += 1;
    }
    shapes.len()
}

/// The one term that claims `rank`, if there is exactly one.
pub fn find_sole_claimant(
    shapes: &Vec<Vec<Size>>,
    combinations: &Vec<RankCombination>,
    rank: usize,
) -> (r: Option<usize>)
    ensures
        match r {
            Some(i) => sole_claimant(
                shapes_view(*shapes),
                combinations_view(*combinations),
                rank as int,
            ) == Some(i as int) && i < shapes.len(),
            None => sole_claimant(
                shapes_view(*shapes),
                combinations_view(*combinations),
                rank as int,
            ) is None,
        },
{
    let first = find_claimant(shapes, combinations, rank, 0);
    if first < shapes.len() {
        let second = find_claimant(shapes, combinations, rank, first + 1);
        if second == shapes.len() {
            return Some(first);
        }
    }
    None
}

/// Adds every entry of the outer combination to the term that alone claims
/// its rank.
fn rewire_rows(
    shapes: &Vec<Vec<Size>>,
    inner: &Vec<RankCombination>,
    rows: Vec<RankCombination>,
    outer: &Vec<(usize, usize)>,
) -> (r: Result<Vec<RankCombination>, AlgebraError>)
    requires
        rows.len() == shapes.len(),
    ensures
        match r {
            Ok(v) => rewire(
                shapes_view(*shapes),
                combinations_view(*inner),
                combinations_view(rows),
                outer@,
                0,
            ) == Ok::<Seq<Seq<(usize, usize)>>, AlgebraError>(combinations_view(v)) && v.len()
                == rows.len(),
            Err(e) => rewire(
                shapes_view(*shapes),
                combinations_view(*inner),
                combinations_view(rows),
                outer@,
                0,
            ) == Err::<Seq<Seq<(usize, usize)>>, AlgebraError>(e),
        },
{
    let mut current = rows;
    let mut j: usize = 0;
    while j < outer.len()
        invariant
            j <= outer.len(),
            current.len() == shapes.len(),
            rewire(
                shapes_view(*shapes),
                combinations_view(*inner),
                combinations_view(rows),
                outer@,
                0,
            ) == rewire(
                shapes_view(*shapes),
                combinations_view(*inner),
                combinations_view(current),
                outer@,
                j as int,
            ),
        decreases outer.len() - j,
    {
        let entry = outer[j];
        match find_sole_claimant(shapes, inner, entry.0) {
            None => {
                return Err(AlgebraError::AmbiguousContraction);
            },
            Some(owner) => {
                let ghost before = combinations_view(current);
                let mut row = copy_pairs(&current[owner]);
                row.push(entry);
                current.set(owner, row);
                proof {
                    assert(combinations_view(current) =~= before.update(
                        owner as int,
                        before[owner as int].push(entry),
                    ));
                }
            },
        }
        j += 1;
    }
    Ok(current)
}

/// Adds copies of `more` behind `out`.
fn append_terms(out: &mut Vec<TensorExpression>, more: &Vec<TensorExpression>)
    ensures
        terms_view(*final(out)) == terms_view(*old(out)) + terms_view(*more),
        final(out).len() == old(out).len() + more.len(),
{
    let ghost before = terms_view(*out);
    let ghost start = out.len();
    let mut k: usize = 0;
    while k < more.len()
        invariant
            k <= more.len(),
            out.len() == start + k,
            terms_view(*out) == before + terms_view(*more).subrange(0, k as int),
        decreases more.len() - k,
    {
        let ghost previous = terms_view(*out);
        out.push(more[k].duplicate());
        proof {
            assert(terms_view(*out) =~= previous.push(more[k as int]@));
            assert(terms_view(*out) =~= before + terms_view(*more).subrange(0, k + 1));
        }
        k += 1;
    }
    proof {
        assert(terms_view(*more).subrange(0, more.len() as int) =~= terms_view(*more));
    }
}

/// Adds copies of `more` behind `out`.
fn append_rows(out: &mut Vec<RankCombination>, more: &Vec<RankCombination>)
    ensures
        combinations_view(*final(out)) == combinations_view(*old(out)) + combinations_view(*more),
        final(out).len() == old(out).len() + more.len(),
{
    let ghost before = combinations_view(*out);
    let ghost start = out.len();
    let mut k: usize = 0;
    while k < more.len()
        invariant
            k <= more.len(),
            out.len() == start + k,
            combinations_view(*out) == before + combinations_view(*more).subrange(0, k as int),
        decreases more.len() - k,
    {
        let ghost previous = combinations_view(*out);
        out.push(copy_pairs(&more[k]));
        proof {
            assert(combinations_view(*out) =~= previous.push(more[k as int]@));
            assert(combinations_view(*out) =~= before + combinations_view(*more).subrange(
                0,
                k + 1,
            ));
        }
        k += 1;
    }
    proof {
        assert(combinations_view(*more).subrange(0, more.len() as int) =~= combinations_view(
            *more,
        ));
    }
}

/// Whether no rank stands twice in a rank combination.
pub fn has_distinct_ranks(combination: &Vec<(usize, usize)>) -> (r: bool)
    ensures
        r == distinct_ranks(combination@),
{
    let mut i: usize = 0;
    while i < combination.len()
        invariant
            i <= combination.len(),
            forall|a: int, b: int|
                0 <= a < i && a < b < combination.len() ==> (#[trigger] combination@[a]).0 != (
                #[trigger] combination@[b]).0,
        decreases combination.len() - i,
    {
        let mut j: usize = i + 1;
        while j < combination.len()
            invariant
                i < j <= combination.len(),
                forall|b: int|
                    i < b < j ==> (#[trigger] combination@[b]).0 != combination@[i as int].0,
            decreases combination.len() - j,
        {
            if combination[i].0 == combination[j].0 {
                return false;
            }
            j += 1;
        }
        i += 1;
    }
    true
}

/// Whether no rank stands twice in any of the rank combinations.
pub fn are_rows_distinct(combinations: &Vec<RankCombination>) -> (r: bool)
    ensures
        r == rows_distinct(combinations_view(*combinations)),
{
    let mut k: usize = 0;
    while k < combinations.len()
        invariant
            k <= combinations.len(),
            forall|q: int|
                0 <= q < k ==> distinct_ranks(#[trigger] combinations_view(*combinations)[q]),
        decreases combinations.len() - k,
    {
        if !has_distinct_ranks(&combinations[k]) {
            proof {
                assert(!distinct_ranks(combinations_view(*combinations)[k as int]));
            }
            return false;
        }
        k += 1;
    }
    true
}

/// Whether no rank stands twice in a rank combination of a nested
/// contraction.
pub fn are_nested_distinct(terms: &Vec<TensorExpression>) -> (r: bool)
    ensures
        r == nested_distinct(terms_view(*terms)),
{
    let mut k: usize = 0;
    while k < terms.len()
        invariant
            k <= terms.len(),
            forall|q: int|
                0 <= q < k && (#[trigger] terms_view(*terms)[q]) is InnerProd ==> rows_distinct(
                    terms_view(*terms)[q]->rank_combinations,
                ),
        decreases terms.len() - k,
    {
        proof {
            assert(terms_view(*terms)[k as int] == terms[k as int]@);
        }
        match &terms[k] {
            TensorExpression::InnerProd { terms: _, rank_combinations } => {
                proof {
                    lemma_inner_prod_model(terms[k as int]);
                }
                if !are_rows_distinct(rank_combinations) {
                    return false;
                }
            },
            _ => {},
        }
        k += 1;
    }
    true
}

/// Whether a term is the zero tensor.
pub fn any_zero(terms: &Vec<TensorExpression>) -> (r: bool)
    ensures
        r == has_zero(terms_view(*terms)),
{
    let mut i: usize = 0;
    while i < terms.len()
        invariant
            i <= terms.len(),
            forall|j: int| 0 <= j < i ==> !(#[trigger] terms_view(*terms)[j] is Zero),
        decreases terms.len() - i,
    {
        if terms[i].is_zero() {
            proof {
                assert(terms_view(*terms)[i as int] is Zero);
            }
            return true;
        }
        i += 1;
    }
    false
}

/// Whether two terms claim one rank.
pub fn has_conflict(shapes: &Vec<Vec<Size>>, combinations: &Vec<RankCombination>) -> (r: bool)
    ensures
        r == conflict(shapes_view(*shapes), combinations_view(*combinations)),
{
    let ghost s = shapes_view(*shapes);
    let ghost c = combinations_view(*combinations);
    let mut i: usize = 0;
    while i < shapes.len()
        invariant
            i <= shapes.len(),
            s == shapes_view(*shapes),
            c == combinations_view(*combinations),
            forall|rank: int, a: int, b: int|
                0 <= a < i && a < b && #[trigger] claims(s, c, a, rank) ==> !#[trigger] claims(
                    s,
                    c,
                    b,
                    rank,
                ),
        decreases shapes.len() - i,
    {
        let mut rank: usize = 0;
        while rank < shapes[i].len()
            invariant
                i < shapes.len(),
                rank <= shapes[i as int].len(),
                s == shapes_view(*shapes),
                c == combinations_view(*combinations),
                forall|q: int, b: int|
                    0 <= q < rank && i < b && #[trigger] claims(s, c, i as int, q)
                        ==> !#[trigger] claims(s, c, b, q),
            decreases shapes[i as int].len() - rank,
        {
            if term_claims(shapes, combinations, i, rank) {
                let other = find_claimant(shapes, combinations, rank, i + 1);
                if other < shapes.len() {
                    proof {
                        lemma_first_claimant(s, c, rank as int, i + 1);
                        assert(claims(s, c, i as int, rank as int));
                        assert(claims(s, c, other as int, rank as int));
                    }
                    return true;
                }
                proof {
                    lemma_first_claimant(s, c, rank as int, i + 1);
                }
            }
            rank += 1;
        }
        i += 1;
    }
    proof {
        assert forall|rank: int, a: int, b: int|
            a < b && #[trigger] claims(s, c, a, rank) implies !#[trigger] claims(
            s,
            c,
            b,
            rank,
        ) by {}
    }
    false
}

/// `first_claimant` gives a claimant, or the number of terms where no term
/// from `from` on claims the rank.
pub proof fn lemma_first_claimant(
    shapes: Seq<Seq<Size>>,
    combinations: Seq<Seq<(usize, usize)>>,
    rank: int,
    from: int,
)
    requires
        0 <= from,
    ensures
        ({
            let f = first_claimant(shapes, combinations, rank, from);
            &&& from <= f || f == shapes.len()
            &&& f <= shapes.len()
            &&& f < shapes.len() ==> claims(shapes, combinations, f, rank)
            &&& forall|b: int| from <= b < f ==> !claims(shapes, combinations, b, rank)
        }),
    decreases shapes.len() - from,
{
    if from < shapes.len() && !claims(shapes, combinations, from, rank) {
        lemma_first_claimant(shapes, combinations, rank, from + 1);
    }
}

/// The flattening of `terms`, with identifiers from `base` on for what the
/// absorbed contractions had.
fn flatten(terms: &Vec<TensorExpression>, combinations: &Vec<RankCombination>, base: usize) -> (r:
    Result<(Vec<TensorExpression>, Vec<RankCombination>), AlgebraError>)
    requires
        terms.len() == combinations.len(),
    ensures
        match r {
            Ok(pair) => flatten_from(
                terms_view(*terms),
                combinations_view(*combinations),
                0,
                base as nat,
                Flat { terms: Seq::empty(), combinations: Seq::empty() },
            ) == Ok::<Flat, AlgebraError>(
                Flat { terms: terms_view(pair.0), combinations: combinations_view(pair.1) },
            ) && pair.0.len() == pair.1.len(),
            Err(e) => flatten_from(
                terms_view(*terms),
                combinations_view(*combinations),
                0,
                base as nat,
                Flat { terms: Seq::empty(), combinations: Seq::empty() },
            ) == Err::<Flat, AlgebraError>(e),
        },
{
    let ghost t = terms_view(*terms);
    let ghost c = combinations_view(*combinations);
    let mut out_terms: Vec<TensorExpression> = Vec::new();
    let mut out_rows: Vec<RankCombination> = Vec::new();
    let mut next: usize = base;
    let mut i: usize = 0;
    proof {
        assert(terms_view(out_terms) =~= Seq::<TensorModel>::empty());
        assert(combinations_view(out_rows) =~= Seq::<Seq<(usize, usize)>>::empty());
    }
    while i < terms.len()
        invariant
            i <= terms.len(),
            terms.len() == combinations.len(),
            t == terms_view(*terms),
            c == combinations_view(*combinations),
            out_terms.len() == out_rows.len(),
            flatten_from(
                t,
                c,
                0,
                base as nat,
                Flat { terms: Seq::empty(), combinations: Seq::empty() },
            ) == flatten_from(
                t,
                c,
                i as int,
                next as nat,
                Flat { terms: terms_view(out_terms), combinations: combinations_view(out_rows) },
            ),
        decreases terms.len() - i,
    {
        let ghost done = Flat {
            terms: terms_view(out_terms),
            combinations: combinations_view(out_rows),
        };
        match &terms[i] {
            TensorExpression::InnerProd { terms: inner_terms, rank_combinations } => {
                proof {
                    lemma_inner_prod_model(terms[i as int]);
                }
                let span = match fresh_identifier(rank_combinations) {
                    None => {
                        return Err(AlgebraError::IndexOutOfRange);
                    },
                    Some(span) => span,
                };
                let shift = if next > span {
                    next
                } else {
                    span
                };
                if span > usize::MAX - shift {
                    return Err(AlgebraError::IndexOutOfRange);
                }
                let shapes = shapes_of(inner_terms);
                let rows = lift_combinations(
                    rank_combinations,
                    inner_terms.len(),
                    shift,
                    combinations,
                    &out_rows,
                );
                let rewired = match rewire_rows(&shapes, rank_combinations, rows, &combinations[i]) {
                    Err(e) => {
                        return Err(e);
                    },
                    Ok(rewired) => rewired,
                };
                append_terms(&mut out_terms, inner_terms);
                append_rows(&mut out_rows, &rewired);
                next = shift + span;
            },
            other => {
                out_terms.push(other.duplicate());
                out_rows.push(copy_pairs(&combinations[i]));
                proof {
                    assert(terms_view(out_terms) =~= done.terms.push(t[i as int]));
                    assert(combinations_view(out_rows) =~= done.combinations.push(
                        combination_at(c, i as int),
                    ));
                }
            },
        }
        i += 1;
    }
    Ok((out_terms, out_rows))
}

/// What the fusion gathered.
pub struct Gathered {
    pub pairs: Vec<(usize, usize)>,
    pub links: Vec<(usize, usize)>,
    pub found: bool,
    pub terms: Vec<TensorExpression>,
    pub rows: Vec<RankCombination>,
}

/// What the fusion gathered, as a model.
pub open spec fn fusion_of(g: Gathered) -> Fusion {
    Fusion {
        pairs: g.pairs@,
        combination: g.links@,
        found: g.found,
        rest: Flat { terms: terms_view(g.terms), combinations: combinations_view(g.rows) },
    }
}

/// Gathers the Kronecker deltas of flattened terms.
fn gather(terms: &Vec<TensorExpression>, combinations: &Vec<RankCombination>) -> (g: Gathered)
    requires
        terms.len() == combinations.len(),
    ensures
        fusion_of(g) == gathered(
            Flat { terms: terms_view(*terms), combinations: combinations_view(*combinations) },
        ),
        g.terms.len() == g.rows.len(),
{
    let ghost flat = Flat {
        terms: terms_view(*terms),
        combinations: combinations_view(*combinations),
    };
    let mut pairs: Vec<(usize, usize)> = Vec::new();
    let mut links: Vec<(usize, usize)> = Vec::new();
    let mut found = false;
    let mut rest_terms: Vec<TensorExpression> = Vec::new();
    let mut rest_rows: Vec<RankCombination> = Vec::new();
    let mut i: usize = 0;
    proof {
        assert(terms_view(rest_terms) =~= Seq::<TensorModel>::empty());
        assert(combinations_view(rest_rows) =~= Seq::<Seq<(usize, usize)>>::empty());
        assert(pairs@ =~= Seq::<(usize, usize)>::empty());
        assert(links@ =~= Seq::<(usize, usize)>::empty());
    }
    while i < terms.len()
        invariant
            i <= terms.len(),
            terms.len() == combinations.len(),
            flat == (Flat {
                terms: terms_view(*terms),
                combinations: combinations_view(*combinations),
            }),
            rest_terms.len() == rest_rows.len(),
            gathered(flat) == fuse_from(
                flat,
                i as int,
                Fusion {
                    pairs: pairs@,
                    combination: links@,
                    found,
                    rest: Flat {
                        terms: terms_view(rest_terms),
                        combinations: combinations_view(rest_rows),
                    },
                },
            ),
        decreases terms.len() - i,
    {
        let ghost old_pairs = pairs@;
        let ghost old_links = links@;
        let ghost old_terms = terms_view(rest_terms);
        let ghost old_rows = combinations_view(rest_rows);
        match &terms[i] {
            TensorExpression::KroneckerDeltas(more) => {
                let mut k: usize = 0;
                while k < more.len()
                    invariant
                        k <= more.len(),
                        pairs@ == old_pairs + more@.subrange(0, k as int),
                    decreases more.len() - k,
                {
                    pairs.push(more[k]);
                    proof {
                        assert(pairs@ =~= old_pairs + more@.subrange(0, k + 1));
                    }
                    k += 1;
                }
                proof {
                    assert(more@.subrange(0, more.len() as int) =~= more@);
                }
                let row = &combinations[i];
                let mut q: usize = 0;
                while q < row.len()
                    invariant
                        q <= row.len(),
                        links@ == old_links + row@.subrange(0, q as int),
                    decreases row.len() - q,
                {
                    links.push(row[q]);
                    proof {
                        assert(links@ =~= old_links + row@.subrange(0, q + 1));
                    }
                    q += 1;
                }
                proof {
                    assert(row@.subrange(0, row.len() as int) =~= row@);
                }
                found = true;
            },
            other => {
                rest_terms.push(other.duplicate());
                rest_rows.push(copy_pairs(&combinations[i]));
                proof {
                    assert(terms_view(rest_terms) =~= old_terms.push(flat.terms[i as int]));
                    assert(combinations_view(rest_rows) =~= old_rows.push(
                        combination_at(flat.combinations, i as int),
                    ));
                }
            },
        }
        i += 1;
    }
    Gathered { pairs, links, found, terms: rest_terms, rows: rest_rows }
}

/// The terms and the rank combinations of what the fusion gathered.
fn fuse(g: Gathered) -> (r: (Vec<TensorExpression>, Vec<RankCombination>))
    requires
        g.terms.len() == g.rows.len(),
    ensures
        terms_view(r.0) == fused_terms(fusion_of(g)),
        combinations_view(r.1) == fused_rows(fusion_of(g)),
{
    let Gathered { pairs, links, found, terms: rest_terms, rows: rest_rows } = g;
    if found {
        let ghost all_pairs = pairs@;
        let ghost merged = links@;
        let mut all_terms: Vec<TensorExpression> = Vec::new();
        all_terms.push(TensorExpression::KroneckerDeltas(pairs));
        let mut all_rows: Vec<RankCombination> = Vec::new();
        all_rows.push(links);
        let ghost head_terms = terms_view(all_terms);
        let ghost head_rows = combinations_view(all_rows);
        append_terms(&mut all_terms, &rest_terms);
        append_rows(&mut all_rows, &rest_rows);
        proof {
            assert(head_terms =~= seq![TensorModel::KroneckerDeltas(all_pairs)]);
            assert(head_rows =~= seq![merged]);
        }
        (all_terms, all_rows)
    } else {
        (rest_terms, rest_rows)
    }
}

/// Building a contraction from several terms.
pub trait InnerProd {
    /// The terms, as models.
    spec fn term_models(&self) -> Seq<TensorModel>;

    /// The contraction of the terms under `rank_combinations`, which holds
    /// one combination for each term.
    fn inner_prod(self, rank_combinations: &Vec<RankCombination>) -> (r: Result<
        TensorExpression,
        AlgebraError,
    >)
        ensures
            tensor_outcome(r) == contraction(
                self.term_models(),
                combinations_view(*rank_combinations),
            ),
            r matches Ok(node) ==> (node@ is InnerProd ==> rows_distinct(
                node@->rank_combinations,
            )),
    ;
}

impl InnerProd for Vec<TensorExpression> {
    open spec fn term_models(&self) -> Seq<TensorModel> {
        terms_view(*self)
    }

    fn inner_prod(self, rank_combinations: &Vec<RankCombination>) -> (r: Result<
        TensorExpression,
        AlgebraError,
    >) {
        contract_terms(&self, rank_combinations)
    }
}

/// The contraction of `terms` under `rank_combinations`.  In a contraction
/// node that it gives, no rank stands twice in a rank combination.
pub fn contract_terms(terms: &Vec<TensorExpression>, rank_combinations: &Vec<RankCombination>) -> (r:
    Result<TensorExpression, AlgebraError>)
    ensures
        tensor_outcome(r) == contraction(terms_view(*terms), combinations_view(*rank_combinations)),
        r matches Ok(node) ==> (node@ is InnerProd ==> rows_distinct(node@->rank_combinations)),
{
    proof {
        law_rows_distinct(terms_view(*terms), combinations_view(*rank_combinations));
    }
    contract_checked(terms, rank_combinations)
}

fn contract_checked(terms: &Vec<TensorExpression>, rank_combinations: &Vec<RankCombination>) -> (r:
    Result<TensorExpression, AlgebraError>)
    ensures
        tensor_outcome(r) == contraction(terms_view(*terms), combinations_view(*rank_combinations)),
{
    if terms.len() == 0 || terms.len() != rank_combinations.len() {
        return Err(AlgebraError::ShapeMismatch);
    }
    let base = match fresh_identifier(rank_combinations) {
        None => {
            return Err(AlgebraError::IndexOutOfRange);
        },
        Some(base) => base,
    };
    let (flat_terms, flat_rows) = match flatten(terms, rank_combinations, base) {
        Err(e) => {
            return Err(e);
        },
        Ok(pair) => pair,
    };
    if any_zero(&flat_terms) {
        return Ok(TensorExpression::Zero);
    }
    if !are_rows_distinct(rank_combinations) || !are_nested_distinct(terms) {
        return Err(AlgebraError::ShapeMismatch);
    }
    let g = gather(&flat_terms, &flat_rows);
    if let Some(x) = fold_numeric(&g) {
        return Ok(TensorExpression::Constant(NumericTensor::trusted(x)));
    }
    if !has_distinct_ranks(&g.links) {
        return Err(AlgebraError::AmbiguousContraction);
    }
    let (all_terms, all_rows) = fuse(g);
    let shapes = shapes_of(&all_terms);
    if has_conflict(&shapes, &all_rows) {
        return Err(AlgebraError::ShapeMismatch);
    }
    let node = TensorExpression::InnerProd { terms: all_terms, rank_combinations: all_rows };
    proof {
        lemma_inner_prod_model(node);
    }
    Ok(node)
}

/// Whether every axis of a shape has one element.
fn is_single_element(shape: &Vec<usize>) -> (r: bool)
    ensures
        r == single_element(shape@),
{
    let mut k: usize = 0;
    while k < shape.len()
        invariant
            k <= shape.len(),
            forall|j: int| 0 <= j < k ==> (#[trigger] shape@[j]) == 1,
        decreases shape.len() - k,
    {
        if shape[k] != 1 {
            return false;
        }
        k += 1;
    }
    true
}

/// Whether the provider contracts tensors of these shapes over the rank
/// pair `[left, right]`.
pub(crate) fn is_contractible(a: &Vec<usize>, b: &Vec<usize>, left: usize, right: usize) -> (r: bool)
    ensures
        r == contractible(a@, b@, left, right),
{
    if a.len() != b.len() || left >= a.len() || right >= b.len() {
        return false;
    }
    if a[left] != b[right] {
        return false;
    }
    let mut j: usize = 0;
    while j < a.len()
        invariant
            j <= a.len(),
            a.len() == b.len(),
            forall|q: int| 0 <= q < j && q != left ==> (#[trigger] a@[q]) >= 1,
            forall|q: int| 0 <= q < j && q != right ==> (#[trigger] b@[q]) >= 1,
            forall|q: int| 0 <= q < j && q != left && q != right ==> (#[trigger] a@[q]) == 1,
            forall|q: int| 0 <= q < j && q != left && q != right ==> (#[trigger] b@[q]) == 1,
        decreases a.len() - j,
    {
        if j != left && a[j] < 1 {
            return false;
        }
        if j != right && b[j] < 1 {
            return false;
        }
        if j != left && j != right && (a[j] != 1 || b[j] != 1) {
            return false;
        }
        j += 1;
    }
    true
}

/// A numeric tensor multiplied by Kronecker deltas.
pub(crate) fn multiply_deltas(t: &TensorValue, deltas: &Vec<(usize, usize)>) -> (r: Result<
    TensorValue,
    AlgebraError,
>)
    requires
        tensor_sound(*t),
    ensures
        r == apply_deltas(*t, deltas@, 0),
        r matches Ok(v) ==> tensor_sound(v),
{
    let mut current = tensor_copy(t);
    let mut k: usize = 0;
    while k < deltas.len()
        invariant
            k <= deltas.len(),
            tensor_sound(current),
            apply_deltas(*t, deltas@, 0) == apply_deltas(current, deltas@, k as int),
        decreases deltas.len() - k,
    {
        let first = deltas[k].0;
        let second = deltas[k].1;
        let shape = tensor_dimensions(&current);
        if first >= shape.len() || second >= shape.len() {
            return Err(AlgebraError::IndexOutOfRange);
        }
        if first < second && shape[second] != 1 {
            return Err(AlgebraError::ShapeMismatch);
        }
        if second < first && shape[first] != 1 {
            return Err(AlgebraError::ShapeMismatch);
        }
        match tensor_mul_delta(&current, first, second) {
            None => {
                return Err(AlgebraError::ShapeMismatch);
            },
            Some(next) => {
                current = next;
            },
        }
        k += 1;
    }
    Ok(current)
}

/// The scalar constant that holds the one cell of a tensor.
fn first_cell_of(t: &TensorValue) -> (r: Expression)
    requires
        tensor_sound(*t),
        single_element(tensor_shape(*t)),
    ensures
        r@ == first_cell(*t),
{
    let shape = tensor_dimensions(t);
    let mut index: Vec<usize> = Vec::new();
    let mut k: usize = 0;
    while k < shape.len()
        invariant
            k <= shape.len(),
            index@.len() == k,
            forall|j: int| 0 <= j < k ==> index@[j] == 0,
        decreases shape.len() - k,
    {
        index.push(0);
        k += 1;
    }
    proof {
        assert(index@ =~= origin(tensor_shape(*t).len()));
        assert forall|j: int| 0 <= j < index@.len() implies index@[j] < tensor_shape(*t)[j] by {
            assert(tensor_shape(*t)[j] == 1);
        }
    }
    let cell = tensor_cell(t, &index);
    Expression::Constant(ConstantValue::Scalar(Scalar::classified(cell)))
}

/// The pairs of a list of rank pairs.
pub open spec fn pairs_view(rank_pairs: &[[usize; 2]]) -> Seq<(usize, usize)> {
    Seq::new(rank_pairs@.len(), |k: int| (rank_pairs@[k]@[0], rank_pairs@[k]@[1]))
}

/// The pairs of a list of rank pairs.
pub fn pairs_of(rank_pairs: &[[usize; 2]]) -> (r: Vec<(usize, usize)>)
    ensures
        r@ == pairs_view(rank_pairs),
{
    let mut out: Vec<(usize, usize)> = Vec::new();
    let mut k: usize = 0;
    while k < rank_pairs.len()
        invariant
            k <= rank_pairs.len(),
            out@.len() == k,
            forall|j: int|
                0 <= j < k ==> out@[j] == (rank_pairs@[j]@[0], rank_pairs@[j]@[1]),
        decreases rank_pairs.len() - k,
    {
        let pair = &rank_pairs[k];
        out.push((pair[0], pair[1]));
        k += 1;
    }
    proof {
        assert(out@ =~= pairs_view(rank_pairs));
    }
    out
}

/// The rank combination of one side of a list of rank pairs.
fn side_combination(pairs: &Vec<(usize, usize)>, right: bool) -> (r: Vec<(usize, usize)>)
    ensures
        r@ == pair_combination(pairs@, right),
{
    let mut out: Vec<(usize, usize)> = Vec::new();
    let mut k: usize = 0;
    while k < pairs.len()
        invariant
            k <= pairs.len(),
            out@.len() == k,
            forall|j: int|
                0 <= j < k ==> out@[j] == (
                    if right {
                        pairs@[j].1
                    } else {
                        pairs@[j].0
                    },
                    j as usize,
                ),
        decreases pairs.len() - k,
    {
        if right {
            out.push((pairs[k].1, k));
        } else {
            out.push((pairs[k].0, k));
        }
        k += 1;
    }
    proof {
        assert(out@ =~= pair_combination(pairs@, right));
    }
    out
}

/// For every rank that a term claims, the first term that claims it.
pub open spec fn owners(shapes: Seq<Seq<Size>>, combinations: Seq<Seq<(usize, usize)>>) -> Map<
    usize,
    usize,
> {
    Map::new(
        |rank: usize| claimed(shapes, combinations, rank as int),
        |rank: usize| first_claimant(shapes, combinations, rank as int, 0) as usize,
    )
}

/// The ranks with more than one element that the contraction leaves open,
/// each with the term that claims it; a shape error where two terms claim
/// one rank.
pub open spec fn open_ranks(shapes: Seq<Seq<Size>>, combinations: Seq<Seq<(usize, usize)>>) -> Result<
    Map<usize, usize>,
    AlgebraError,
> {
    if conflict(shapes, combinations) {
        Err(AlgebraError::ShapeMismatch)
    } else {
        Ok(owners(shapes, combinations))
    }
}

/// What the search for open ranks came to, as a map.
pub open spec fn owners_outcome(r: Result<HashMap<usize, usize>, AlgebraError>) -> Result<
    Map<usize, usize>,
    AlgebraError,
> {
    match r {
        Ok(m) => Ok(m@),
        Err(e) => Err(e),
    }
}

/// The claimed ranks found so far: those of the terms before `i`, and the
/// ranks below `rank` of term `i`.
pub open spec fn found(
    shapes: Seq<Seq<Size>>,
    combinations: Seq<Seq<(usize, usize)>>,
    i: int,
    rank: int,
    q: int,
) -> bool {
    exists|a: int|
        #[trigger] claims(shapes, combinations, a, q) && (a < i || (a == i && q < rank))
}

fn collect_owners(shapes: &Vec<Vec<Size>>, combinations: &Vec<RankCombination>) -> (r: HashMap<
    usize,
    usize,
>)
    requires
        !conflict(shapes_view(*shapes), combinations_view(*combinations)),
    ensures
        r@ == owners(shapes_view(*shapes), combinations_view(*combinations)),
{
    broadcast use vstd::std_specs::hash::group_hash_axioms;

    let ghost s = shapes_view(*shapes);
    let ghost c = combinations_view(*combinations);
    let mut map: HashMap<usize, usize> = HashMap::new();
    let mut i: usize = 0;
    while i < shapes.len()
        invariant
            i <= shapes.len(),
            s == shapes_view(*shapes),
            c == combinations_view(*combinations),
            !conflict(s, c),
            forall|q: usize| map@.contains_key(q) <==> found(s, c, i as int, 0, q as int),
            forall|q: usize|
                map@.contains_key(q) ==> map@[q] == first_claimant(s, c, q as int, 0) as usize,
        decreases shapes.len() - i,
    {
        let mut rank: usize = 0;
        while rank < shapes[i].len()
            invariant
                i < shapes.len(),
                rank <= shapes[i as int].len(),
                s == shapes_view(*shapes),
                c == combinations_view(*combinations),
                !conflict(s, c),
                forall|q: usize|
                    map@.contains_key(q) <==> found(s, c, i as int, rank as int, q as int),
                forall|q: usize|
                    map@.contains_key(q) ==> map@[q] == first_claimant(s, c, q as int, 0) as usize,
            decreases shapes[i as int].len() - rank,
        {
            let ghost before = map@;
            if term_claims(shapes, combinations, i, rank) {
                map.insert(rank, i);
                proof {
                    lemma_first_claimant(s, c, rank as int, 0);
                    let first = first_claimant(s, c, rank as int, 0);
                    if first < i {
                        assert(claims(s, c, first, rank as int));
                        assert(claims(s, c, i as int, rank as int));
                        assert(conflict(s, c));
                    }
                    assert(first == i);
                }
            }
            proof {
                assert forall|q: usize| map@.contains_key(q) <==> found(
                    s,
                    c,
                    i as int,
                    rank + 1,
                    q as int,
                ) by {
                    if map@.contains_key(q) {
                        if before.contains_key(q) {
                            let a = choose|a: int|
                                #[trigger] claims(s, c, a, q as int) && (a < i || (a == i && q
                                    < rank));
                            assert(claims(s, c, a, q as int) && (a < i || (a == i && q < rank
                                + 1)));
                        } else {
                            assert(q == rank);
                            assert(claims(s, c, i as int, q as int));
                        }
                    }
                    if found(s, c, i as int, rank + 1, q as int) {
                        let a = choose|a: int|
                            #[trigger] claims(s, c, a, q as int) && (a < i || (a == i && q < rank
                                + 1));
                        if a < i || q < rank {
                            assert(found(s, c, i as int, rank as int, q as int));
                        }
                    }
                }
            }
            rank += 1;
        }
        proof {
            assert forall|q: usize| map@.contains_key(q) <==> found(
                s,
                c,
                i + 1,
                0,
                q as int,
            ) by {
                if map@.contains_key(q) {
                    let a = choose|a: int|
                        #[trigger] claims(s, c, a, q as int) && (a < i || (a == i && q
                            < shapes[i as int].len()));
                    assert(claims(s, c, a, q as int) && (a < i + 1 || (a == i + 1 && q < 0)));
                }
                if found(s, c, i + 1, 0, q as int) {
                    let a = choose|a: int|
                        #[trigger] claims(s, c, a, q as int) && (a < i + 1 || (a == i + 1 && q
                            < 0));
                    assert(claims(s, c, a, q as int) && (a < i || (a == i && q
                        < shapes[i as int].len())));
                }
            }
        }
        i += 1;
    }
    proof {
        assert forall|q: usize| map@.contains_key(q) <==> claimed(s, c, q as int) by {
            if map@.contains_key(q) {
                let a = choose|a: int|
                    #[trigger] claims(s, c, a, q as int) && (a < i || (a == i && q < 0));
                assert(claims(s, c, a, q as int));
            }
            if claimed(s, c, q as int) {
                let a = choose|a: int| claims(s, c, a, q as int);
                assert(claims(s, c, a, q as int) && (a < i || (a == i && q < 0)));
            }
        }
        assert(map@ =~= owners(s, c));
    }
    map
}

impl TensorExpression {
    /// The ranks with more than one element that the contraction of `terms`
    /// under `rank_combinations` leaves open, each with the index of the
    /// term that claims it.
    pub fn not_1dimension_ranks_in_inner_prod(
        terms: &Vec<TensorExpression>,
        rank_combinations: &Vec<RankCombination>,
    ) -> (r: Result<HashMap<usize, usize>, AlgebraError>)
        ensures
            owners_outcome(r) == open_ranks(
                term_sizes(terms_view(*terms)),
                combinations_view(*rank_combinations),
            ),
    {
        let shapes = shapes_of(terms);
        if has_conflict(&shapes, rank_combinations) {
            return Err(AlgebraError::ShapeMismatch);
        }
        Ok(collect_owners(&shapes, rank_combinations))
    }

    /// The contraction of `self` and `rhs` over `rank_pairs`, each of which
    /// pairs a rank of `self` with a rank of `rhs`.
    pub fn inner_prod(self, rhs: TensorExpression, rank_pairs: &[[usize; 2]]) -> (r: Result<
        TensorExpression,
        AlgebraError,
    >)
        ensures
            tensor_outcome(r) == inner_product(self@, rhs@, pairs_view(rank_pairs)),
    {
        let pairs = pairs_of(rank_pairs);
        self.inner_prod_pairs(rhs, &pairs)
    }

    /// The contraction of `self` and `rhs` over `rank_pairs`, given as a
    /// list of pairs.
    pub fn inner_prod_pairs(
        self,
        rhs: TensorExpression,
        rank_pairs: &Vec<(usize, usize)>,
    ) -> (r: Result<TensorExpression, AlgebraError>)
        ensures
            tensor_outcome(r) == inner_product(self@, rhs@, rank_pairs@),
    {
        match (&self, &rhs) {
            (TensorExpression::Constant(a), TensorExpression::KroneckerDeltas(deltas)) => {
                return match multiply_deltas(a.value(), deltas) {
                    Ok(t) => Ok(TensorExpression::Constant(NumericTensor::trusted(t))),
                    Err(e) => Err(e),
                };
            },
            (TensorExpression::KroneckerDeltas(deltas), TensorExpression::Constant(b)) => {
                return match multiply_deltas(b.value(), deltas) {
                    Ok(t) => Ok(TensorExpression::Constant(NumericTensor::trusted(t))),
                    Err(e) => Err(e),
                };
            },
            _ => {},
        }
        if let TensorExpression::Constant(a) = &self {
            let a = a.value();
            let da = tensor_dimensions(a);
            if is_single_element(&da) {
                let factor = first_cell_of(a);
                return mul_scalar(factor, rhs, false);
            }
        }
        if let TensorExpression::Constant(b) = &rhs {
            let b = b.value();
            let db = tensor_dimensions(b);
            if is_single_element(&db) {
                let factor = first_cell_of(b);
                return mul_scalar(factor, self, true);
            }
        }
        let left = side_combination(rank_pairs, false);
        let right = side_combination(rank_pairs, true);
        let mut terms: Vec<TensorExpression> = Vec::new();
        terms.push(self);
        terms.push(rhs);
        let mut rows: Vec<RankCombination> = Vec::new();
        rows.push(left);
        rows.push(right);
        proof {
            assert(terms_view(terms) =~= seq![self@, rhs@]);
            assert(combinations_view(rows) =~= seq![
                pair_combination(rank_pairs@, false),
                pair_combination(rank_pairs@, true),
            ]);
        }
        contract_terms(&terms, &rows)
    }
}

} // verus!
