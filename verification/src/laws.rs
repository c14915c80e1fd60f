//! Laws of the engine, each proved from the definitions of the operations
//! that it relates.

use crate::assign::assign_expr;
use crate::assign::assign_tensor;
use crate::constant_value::ConstantModel;
use crate::contraction::conflict;
use crate::contraction::first_claimant;
use crate::contraction::pair_combination;
use crate::contraction::contraction;
use crate::contraction::distinct_ranks;
use crate::contraction::gathered;
use crate::contraction::fuse_from;
use crate::contraction::Fusion;
use crate::contraction::nested_distinct;
use crate::contraction::rows_distinct;
use crate::contraction::flatten_from;
use crate::contraction::fresh_id;
use crate::contraction::fresh_in;
use crate::contraction::has_zero;
use crate::contraction::lemma_first_claimant;
use crate::contraction::lemma_fresh_id_bounds;
use crate::shape::claims;
use crate::shape::delta_rank;
use crate::shape::delta_sizes;
use crate::shape::expr_sizes;
use crate::shape::names_rank;
use crate::shape::tensor_sizes;
use crate::shape::contracts;
use crate::contraction::lemma_fresh_in_bounds;
use crate::contraction::lifted;
use crate::contraction::rewire;
use crate::contraction::renamed;
use crate::contraction::shift_for;
use crate::contraction::occurs;
use crate::contraction::sole_claimant;
use crate::contraction::taken;
use crate::contraction::Flat;
use crate::shape::combination_at;
use crate::shape::term_sizes;
use crate::contraction::inner_product;
use crate::differential::d_expr;
use crate::differential::d_expr_all;
use crate::differential::d_tensor;
use crate::differential::identity_pairs;
use crate::differential::lift_add;
use crate::differential::lift_tensor;
use crate::differential::lift_tensor_add;
use crate::error::AlgebraError;
use crate::expression::ExprModel;
use crate::expression::TensorModel;
use crate::size::Size;
use vstd::prelude::*;

verus! {

/// Differentiation of tensor-valued trees is linear: the derivative of a
/// sum is the sum of the derivatives, both sums being simplified as they
/// are built.
pub proof fn law_tensor_linearity(a: TensorModel, b: TensorModel, name: Seq<char>, offset: nat)
    ensures
        a.add(b) matches Ok(sum) ==> d_tensor(sum, name, offset) == lift_tensor_add(
            d_tensor(a, name, offset),
            d_tensor(b, name, offset),
        ),
{
    let da = d_tensor(a, name, offset);
    let db = d_tensor(b, name, offset);
    if b is Zero {
        match da {
            Ok(x) => {
                assert(x.add(TensorModel::Zero) == Ok::<TensorModel, AlgebraError>(x));
            },
            Err(_) => {},
        }
    } else if a is Zero {
        match db {
            Ok(y) => {
                assert(TensorModel::Zero.add(y) == Ok::<TensorModel, AlgebraError>(y));
            },
            Err(_) => {},
        }
    } else if a is Constant && b is Constant {
        assert(TensorModel::Zero.add(TensorModel::Zero) == Ok::<TensorModel, AlgebraError>(
            TensorModel::Zero,
        ));
    } else {
        assert(a.add(b) == Ok::<TensorModel, AlgebraError>(
            TensorModel::Add(Box::new(a), Box::new(b)),
        ));
    }
}

/// Differentiation is linear: for all trees `a` and `b` and every name, the
/// derivative of the sum of `a` and `b` is the sum of their derivatives,
/// both sums being simplified as they are built.
pub proof fn law_linearity(a: ExprModel, b: ExprModel, name: Seq<char>, offset: nat)
    ensures
        a.add(b) matches Ok(sum) ==> d_expr(sum, name, offset) == lift_add(
            d_expr(a, name, offset),
            d_expr(b, name, offset),
        ),
{
    if b.is_zero_scalar() {
        lemma_sum_with_zero(a, name, offset);
    } else if a.is_zero_scalar() {
        lemma_sum_with_zero(b, name, offset);
    } else if a is Constant && b is Constant {
        lemma_sum_of_constants(a->Constant_0, b->Constant_0, name, offset);
    } else if a is Tensor && b is Tensor {
        lemma_sum_of_tensors(*a->Tensor_0, *b->Tensor_0, name, offset);
    } else {
        assert(a.add(b) == Ok::<ExprModel, AlgebraError>(
            ExprModel::Add(Box::new(a), Box::new(b)),
        ));
    }
}

/// Linearity where one operand is the scalar zero.
pub proof fn lemma_sum_with_zero(a: ExprModel, name: Seq<char>, offset: nat)
    ensures
        lift_add(d_expr(a, name, offset), d_expr(ExprModel::zero(), name, offset)) == d_expr(a, name, offset),
        lift_add(d_expr(ExprModel::zero(), name, offset), d_expr(a, name, offset)) == d_expr(a, name, offset),
{
    assert(d_expr(ExprModel::zero(), name, offset) == Ok::<ExprModel, AlgebraError>(ExprModel::zero()));
    match d_expr(a, name, offset) {
        Ok(x) => {
            lemma_zero_is_neutral(x);
        },
        Err(_) => {},
    }
}

/// The scalar zero is dropped from a sum, on either side.
pub proof fn lemma_zero_is_neutral(x: ExprModel)
    ensures
        x.add(ExprModel::zero()) == Ok::<ExprModel, AlgebraError>(x),
        ExprModel::zero().add(x) == Ok::<ExprModel, AlgebraError>(x),
{
}

/// Linearity where both operands are constants, neither the scalar zero.
pub proof fn lemma_sum_of_constants(
    x: ConstantModel,
    y: ConstantModel,
    name: Seq<char>,
    offset: nat,
)
    requires
        !x.is_zero_scalar(),
        !y.is_zero_scalar(),
    ensures
        ExprModel::Constant(x).add(ExprModel::Constant(y)) matches Ok(sum) ==> d_expr(sum, name, offset)
            == lift_add(d_expr(ExprModel::Constant(x), name, offset), d_expr(ExprModel::Constant(y), name, offset)),
{
    law_constant_rule(x, name, offset);
    law_constant_rule(y, name, offset);
    lemma_zero_sums();
    match x.add(y) {
        Ok(c) => {
            law_constant_rule(c, name, offset);
            assert(c is Scalar <==> (x is Scalar && y is Scalar));
            assert(ExprModel::Constant(x).add(ExprModel::Constant(y)) == Ok::<
                ExprModel,
                AlgebraError,
            >(ExprModel::Constant(c)));
        },
        Err(_) => {},
    }
}

/// Linearity where both operands are tensor valued.
pub proof fn lemma_sum_of_tensors(x: TensorModel, y: TensorModel, name: Seq<char>, offset: nat)
    ensures
        ExprModel::Tensor(Box::new(x)).add(ExprModel::Tensor(Box::new(y))) matches Ok(sum)
            ==> d_expr(sum, name, offset) == lift_add(
            d_expr(ExprModel::Tensor(Box::new(x)), name, offset),
            d_expr(ExprModel::Tensor(Box::new(y)), name, offset),
        ),
{
    law_tensor_linearity(x, y, name, offset);
    lemma_lifted_sum(x, y);
    match (d_tensor(x, name, offset), d_tensor(y, name, offset)) {
        (Ok(p), Ok(q)) => {
            lemma_lifted_sum(p, q);
        },
        _ => {},
    }
}

/// The sums of the two zeros: the zero tensor where one of them is the zero
/// tensor, the scalar zero otherwise.
pub proof fn lemma_zero_sums()
    ensures
        ExprModel::zero().add(ExprModel::zero()) == Ok::<ExprModel, AlgebraError>(
            ExprModel::zero(),
        ),
        ExprModel::zero().add(ExprModel::zero_tensor()) == Ok::<ExprModel, AlgebraError>(
            ExprModel::zero_tensor(),
        ),
        ExprModel::zero_tensor().add(ExprModel::zero()) == Ok::<ExprModel, AlgebraError>(
            ExprModel::zero_tensor(),
        ),
        ExprModel::zero_tensor().add(ExprModel::zero_tensor()) == Ok::<ExprModel, AlgebraError>(
            ExprModel::zero_tensor(),
        ),
{
}

/// The sum of two tensor-valued trees, taken as scalar-valued trees, is
/// their sum as tensors.
pub proof fn lemma_lifted_sum(p: TensorModel, q: TensorModel)
    ensures
        ExprModel::Tensor(Box::new(p)).add(ExprModel::Tensor(Box::new(q))) == lift_tensor(
            p.add(q),
        ),
{
}

/// The value that the derivative of a constant is: the scalar zero for a
/// scalar, the zero tensor for a tensor or a matrix.
pub open spec fn zero_like(c: ConstantModel) -> ExprModel {
    if c is Scalar {
        ExprModel::zero()
    } else {
        ExprModel::zero_tensor()
    }
}

/// The derivative of a constant with respect to any name is the zero shaped
/// like the constant.
pub proof fn law_constant_rule(c: ConstantModel, name: Seq<char>, offset: nat)
    ensures
        d_expr(ExprModel::Constant(c), name, offset) == Ok::<ExprModel, AlgebraError>(zero_like(c)),
{
}

/// The derivatives of a constant with respect to any names are as many
/// zeros shaped like the constant.
pub proof fn law_constant_rule_all(c: ConstantModel, names: Seq<Seq<char>>)
    ensures
        d_expr_all(ExprModel::Constant(c), names, 0, Seq::empty()) == Ok::<
            Seq<ExprModel>,
            AlgebraError,
        >(Seq::new(names.len(), |k: int| zero_like(c))),
{
    lemma_constant_rule_from(c, names, 0, Seq::empty());
    assert(Seq::<ExprModel>::empty() + Seq::new(names.len(), |k: int| zero_like(c)) =~= Seq::new(
        names.len(),
        |k: int| zero_like(c),
    ));
}

/// From name `i` on, the derivatives of a constant add one zero for each
/// name to what was done.
pub proof fn lemma_constant_rule_from(
    c: ConstantModel,
    names: Seq<Seq<char>>,
    i: int,
    done: Seq<ExprModel>,
)
    requires
        0 <= i <= names.len(),
    ensures
        d_expr_all(ExprModel::Constant(c), names, i, done) == Ok::<Seq<ExprModel>, AlgebraError>(
            done + Seq::new((names.len() - i) as nat, |k: int| zero_like(c)),
        ),
    decreases names.len() - i,
{
    if i < names.len() {
        lemma_constant_rule_from(c, names, i + 1, done.push(zero_like(c)));
        assert(done.push(zero_like(c)) + Seq::new(
            (names.len() - i - 1) as nat,
            |k: int| zero_like(c),
        ) =~= done + Seq::new((names.len() - i) as nat, |k: int| zero_like(c)));
    } else {
        assert(done + Seq::new(0nat, |k: int| zero_like(c)) =~= done);
    }
}

/// The derivative of a symbol with respect to its own name, whatever is
/// assigned to whatever names: one for a symbol without axes, and for a
/// symbol of `rank` axes the Kronecker deltas that tie each axis `k` of more
/// than one element to axis `rank + k`, and give axis `rank + k` one element
/// where axis `k` has one: the axes of the derivative stand behind those of
/// the symbol.
pub proof fn law_identity_jacobian(
    name: Seq<char>,
    sizes: Seq<Size>,
    bindings: Seq<(Seq<char>, ConstantModel)>,
)
    requires
        2 * sizes.len() <= usize::MAX,
    ensures
        sizes.len() == 0 ==> d_expr(ExprModel::Symbol(name, sizes), name, sizes.len()) == Ok::<
            ExprModel,
            AlgebraError,
        >(ExprModel::one()),
        sizes.len() > 0 ==> d_expr(ExprModel::Symbol(name, sizes), name, sizes.len()) == Ok::<
            ExprModel,
            AlgebraError,
        >(ExprModel::Tensor(Box::new(TensorModel::KroneckerDeltas(identity_pairs(sizes, sizes.len()))))),
        d_expr(ExprModel::Symbol(name, sizes), name, sizes.len()) matches Ok(d) && assign_expr(d, bindings)
            == Ok::<ExprModel, AlgebraError>(d),
        d_tensor(TensorModel::Symbol(name, sizes), name, sizes.len()) == Ok::<TensorModel, AlgebraError>(
            TensorModel::KroneckerDeltas(identity_pairs(sizes, sizes.len())),
        ),
        d_tensor(TensorModel::Symbol(name, sizes), name, sizes.len()) matches Ok(d) && assign_tensor(d, bindings)
            == Ok::<TensorModel, AlgebraError>(d),
{
    let deltas = TensorModel::KroneckerDeltas(identity_pairs(sizes, sizes.len()));
    assert(assign_tensor(deltas, bindings) == Ok::<TensorModel, AlgebraError>(deltas));
    assert(assign_expr(ExprModel::one(), bindings) == Ok::<ExprModel, AlgebraError>(
        ExprModel::one(),
    ));
    assert(assign_expr(ExprModel::Tensor(Box::new(deltas)), bindings) == Ok::<
        ExprModel,
        AlgebraError,
    >(ExprModel::Tensor(Box::new(deltas))));
}

/// The Kronecker deltas of a symbol's derivative, up to pair `m`, have an
/// axis for every rank up to the one that pair `m - 1` appends.
proof fn lemma_identity_rank(sizes: Seq<Size>, m: int)
    requires
        0 <= m <= sizes.len(),
        2 * sizes.len() <= usize::MAX,
    ensures
        delta_rank(identity_pairs(sizes, sizes.len()).subrange(0, m)) == if m == 0 {
            0
        } else {
            sizes.len() + m
        },
    decreases m,
{
    let pairs = identity_pairs(sizes, sizes.len());
    if m > 0 {
        lemma_identity_rank(sizes, m - 1);
        assert(pairs.subrange(0, m).drop_last() =~= pairs.subrange(0, m - 1));
        assert(pairs.subrange(0, m).last() == pairs[m - 1]);
    }
}

/// The derivative of a symbol with respect to itself has the shape of the
/// symbol followed by the shape of the symbol: the axes of the variable are
/// appended on the right, each with the size it has in the variable.
pub proof fn law_symbol_shape(name: Seq<char>, sizes: Seq<Size>)
    requires
        2 * sizes.len() <= usize::MAX,
    ensures
        d_expr(ExprModel::Symbol(name, sizes), name, sizes.len()) matches Ok(d) && expr_sizes(d)
            == sizes + sizes,
        sizes.len() > 0 ==> (d_tensor(
            TensorModel::Symbol(name, sizes),
            name,
            sizes.len(),
        ) matches Ok(d) && tensor_sizes(d) == sizes + sizes),
{
    let n = sizes.len();
    if n == 0 {
        assert(sizes + sizes =~= Seq::<Size>::empty());
        assert(expr_sizes(ExprModel::one()) =~= Seq::<Size>::empty());
    } else {
        let pairs = identity_pairs(sizes, n);
        lemma_identity_rank(sizes, n as int);
        assert(pairs.subrange(0, n as int) =~= pairs);
        let shape = delta_sizes(pairs);
        assert(shape.len() == 2 * n);
        assert forall|r: int| 0 <= r < 2 * n implies shape[r] == (sizes + sizes)[r] by {
            let k = if r < n {
                r
            } else {
                r - n
            };
            if sizes[k] is Many {
                assert(pairs[k] == (k as usize, (k + n) as usize));
                assert(names_rank(pairs, r));
            } else {
                assert(sizes[k] is One);
                assert forall|q: int| 0 <= q < pairs.len() && (#[trigger] pairs[q]).0
                    != pairs[q].1 implies pairs[q].0 != r && pairs[q].1 != r by {
                    if sizes[q] is One {
                        assert(pairs[q].0 == pairs[q].1);
                    } else {
                        assert(pairs[q] == (q as usize, (q + n) as usize));
                    }
                }
                assert(!names_rank(pairs, r));
            }
        }
        assert(shape =~= sizes + sizes);
        let deltas = TensorModel::KroneckerDeltas(pairs);
        assert(tensor_sizes(deltas) == shape);
        assert(d_tensor(TensorModel::Symbol(name, sizes), name, n) == Ok::<
            TensorModel,
            AlgebraError,
        >(deltas));
        assert(expr_sizes(ExprModel::Tensor(Box::new(deltas))) == shape);
    }
}

/// The identifiers of the rank combination of one side of a list of rank
/// pairs are the numbers of the pairs.
proof fn lemma_pair_identifiers(pairs: Seq<(usize, usize)>, right: bool)
    requires
        pairs.len() <= usize::MAX,
    ensures
        fresh_in(pair_combination(pairs, right)) == pairs.len(),
    decreases pairs.len(),
{
    if pairs.len() > 0 {
        lemma_pair_identifiers(pairs.drop_last(), right);
        assert(pair_combination(pairs, right).drop_last() =~= pair_combination(
            pairs.drop_last(),
            right,
        ));
    }
}

/// A contraction with the zero tensor is the zero tensor, whatever the other
/// operand and the rank pairs.  Only where the other operand is a
/// contraction itself that cannot be absorbed is it an error, and never
/// anything but zero.
pub proof fn law_zero_absorption(a: TensorModel, pairs: Seq<(usize, usize)>)
    requires
        pairs.len() <= usize::MAX,
    ensures
        inner_product(a, TensorModel::Zero, pairs) matches Ok(node) ==> node == TensorModel::Zero,
        inner_product(TensorModel::Zero, a, pairs) matches Ok(node) ==> node == TensorModel::Zero,
        !(a is InnerProd) ==> inner_product(a, TensorModel::Zero, pairs) == Ok::<
            TensorModel,
            AlgebraError,
        >(TensorModel::Zero) && inner_product(TensorModel::Zero, a, pairs) == Ok::<
            TensorModel,
            AlgebraError,
        >(TensorModel::Zero),
{
    let left = pair_combination(pairs, false);
    let right = pair_combination(pairs, true);
    let zero = TensorModel::Zero;
    let rows = seq![left, right];
    lemma_pair_identifiers(pairs, false);
    lemma_pair_identifiers(pairs, true);
    assert(fresh_id(rows) == pairs.len()) by {
        let one = seq![left];
        assert(rows.drop_last() =~= one);
        assert(rows.last() == right);
        assert(one.drop_last() =~= Seq::<Seq<(usize, usize)>>::empty());
        assert(one.last() == left);
        assert(fresh_id(one.drop_last()) == 0);
        assert(fresh_id(one) == fresh_in(left));
    }
    law_zero_term(seq![a, zero], rows, 1);
    law_zero_term(seq![zero, a], rows, 0);
}

/// No term is a contraction.
pub open spec fn no_contraction(terms: Seq<TensorModel>) -> bool {
    forall|k: int| 0 <= k < terms.len() ==> !((#[trigger] terms[k]) is InnerProd)
}

/// No term of a term is a contraction: the terms are contractions as the
/// engine builds them.
pub open spec fn shallow(terms: Seq<TensorModel>) -> bool {
    forall|k: int|
        0 <= k < terms.len() && (#[trigger] terms[k]) is InnerProd ==> no_contraction(
            terms[k]->terms,
        )
}

/// Every identifier is below `bound`.
pub open spec fn ids_below(combinations: Seq<Seq<(usize, usize)>>, bound: int) -> bool {
    forall|k: int, j: int|
        0 <= k < combinations.len() && 0 <= j < combinations[k].len() ==> (
        #[trigger] combinations[k][j]).1 < bound
}

/// Identifiers that stay below the largest integer have a fresh identifier
/// within the machine's integers.
pub proof fn lemma_fresh_in_below(combination: Seq<(usize, usize)>)
    requires
        forall|j: int| 0 <= j < combination.len() ==> (#[trigger] combination[j]).1 < usize::MAX,
    ensures
        fresh_in(combination) <= usize::MAX,
    decreases combination.len(),
{
    if combination.len() > 0 {
        let rest = combination.drop_last();
        assert forall|j: int| 0 <= j < rest.len() implies (#[trigger] rest[j]).1 < usize::MAX by {
            assert(rest[j] == combination[j]);
        }
        lemma_fresh_in_below(rest);
        assert(combination.last() == combination[combination.len() - 1]);
    }
}

/// Identifiers that stay below the largest integer have a fresh identifier
/// within the machine's integers.
pub proof fn lemma_fresh_id_below(combinations: Seq<Seq<(usize, usize)>>)
    requires
        ids_below(combinations, usize::MAX as int),
    ensures
        fresh_id(combinations) <= usize::MAX,
    decreases combinations.len(),
{
    if combinations.len() > 0 {
        let rest = combinations.drop_last();
        assert(ids_below(rest, usize::MAX as int)) by {
            assert forall|k: int, j: int|
                0 <= k < rest.len() && 0 <= j < rest[k].len() implies (#[trigger] rest[k][j]).1
                < usize::MAX by {
                assert(rest[k] == combinations[k]);
                assert(combinations[k][j].1 < usize::MAX);
            }
        }
        lemma_fresh_id_below(rest);
        let last = combinations.last();
        assert forall|j: int| 0 <= j < last.len() implies (#[trigger] last[j]).1 < usize::MAX by {
            assert(combinations[combinations.len() - 1][j].1 < usize::MAX);
        }
        lemma_fresh_in_below(last);
    }
}

/// A fresh identifier within the machine's integers is above every
/// identifier.
pub proof fn lemma_ids_below_fresh(combinations: Seq<Seq<(usize, usize)>>)
    ensures
        ids_below(combinations, fresh_id(combinations) as int),
{
    assert forall|k: int, j: int|
        0 <= k < combinations.len() && 0 <= j < combinations[k].len() implies (
    #[trigger] combinations[k][j]).1 < fresh_id(combinations) by {
        lemma_fresh_in_bounds(combinations[k], j);
        lemma_fresh_id_bounds(combinations, k);
    }
}

/// Rewiring keeps the number of terms, and adds only identifiers of the
/// outer combination.
pub proof fn lemma_rewire(
    shapes: Seq<Seq<Size>>,
    inner: Seq<Seq<(usize, usize)>>,
    current: Seq<Seq<(usize, usize)>>,
    outer: Seq<(usize, usize)>,
    j: int,
    bound: int,
)
    requires
        0 <= j,
        ids_below(current, bound),
        forall|m: int| 0 <= m < outer.len() ==> (#[trigger] outer[m]).1 < bound,
    ensures
        rewire(shapes, inner, current, outer, j) matches Ok(rows) ==> rows.len() == current.len()
            && ids_below(rows, bound),
    decreases outer.len() - j,
{
    if j < outer.len() {
        match sole_claimant(shapes, inner, outer[j].0 as int) {
            None => {},
            Some(owner) => {
                if 0 <= owner < current.len() {
                    let next = current.update(owner, current[owner].push(outer[j]));
                    assert(ids_below(next, bound)) by {
                        assert forall|k: int, q: int|
                            0 <= k < next.len() && 0 <= q < next[k].len() implies (
                        #[trigger] next[k][q]).1 < bound by {
                            if k == owner {
                                if q < current[owner].len() {
                                    assert(next[k][q] == current[owner][q]);
                                } else {
                                    assert(next[k][q] == outer[j]);
                                }
                            } else {
                                assert(next[k][q] == current[k][q]);
                            }
                        }
                    }
                    lemma_rewire(shapes, inner, next, outer, j + 1, bound);
                }
            },
        }
    }
}

/// The identifiers of an absorbed contraction, kept or moved up, stay below
/// the largest integer.
pub proof fn lemma_lifted(
    inner: Seq<Seq<(usize, usize)>>,
    count: nat,
    shift: nat,
    outer: Seq<Seq<(usize, usize)>>,
    done: Seq<Seq<(usize, usize)>>,
)
    requires
        shift + fresh_id(inner) <= usize::MAX,
    ensures
        ids_below(lifted(inner, count, shift, outer, done), usize::MAX as int),
        lifted(inner, count, shift, outer, done).len() == count,
{
    let rows = lifted(inner, count, shift, outer, done);
    assert forall|k: int, j: int| 0 <= k < rows.len() && 0 <= j < rows[k].len() implies (
    #[trigger] rows[k][j]).1 < usize::MAX by {
        let source = combination_at(inner, k);
        assert(rows[k] == renamed(source, shift, outer, done));
        if 0 <= k < inner.len() {
            lemma_fresh_in_bounds(inner[k], j);
            lemma_fresh_id_bounds(inner, k);
        }
    }
}

/// What flattening gives holds no contraction, has one combination for each
/// term and identifiers within the machine's integers, and keeps every zero
/// term.
pub proof fn lemma_flatten(
    terms: Seq<TensorModel>,
    combinations: Seq<Seq<(usize, usize)>>,
    i: int,
    next: nat,
    done: Flat,
)
    requires
        0 <= i,
        terms.len() == combinations.len(),
        shallow(terms),
        no_contraction(done.terms),
        done.terms.len() == done.combinations.len(),
        ids_below(done.combinations, usize::MAX as int),
        ids_below(combinations, usize::MAX as int),
    ensures
        flatten_from(terms, combinations, i, next, done) matches Ok(flat) ==> {
            &&& no_contraction(flat.terms)
            &&& flat.terms.len() == flat.combinations.len()
            &&& flat.terms.len() >= done.terms.len()
            &&& ids_below(flat.combinations, usize::MAX as int)
            &&& has_zero(done.terms) ==> has_zero(flat.terms)
            &&& forall|k: int| i <= k < terms.len() && (#[trigger] terms[k]) is Zero ==> has_zero(
                flat.terms,
            )
        },
    decreases terms.len() - i,
{
    if i < terms.len() {
        match terms[i] {
            TensorModel::InnerProd { terms: inner_terms, rank_combinations } => {
                let span = fresh_id(rank_combinations);
                let shift = shift_for(next, span);
                if shift + span <= usize::MAX {
                    let outer = combination_at(combinations, i);
                    let start = lifted(
                        rank_combinations,
                        inner_terms.len(),
                        shift,
                        combinations,
                        done.combinations,
                    );
                    lemma_lifted(
                        rank_combinations,
                        inner_terms.len(),
                        shift,
                        combinations,
                        done.combinations,
                    );
                    assert forall|m: int| 0 <= m < outer.len() implies (#[trigger] outer[m]).1
                        < usize::MAX by {
                        assert(combinations[i][m].1 < usize::MAX);
                    }
                    lemma_rewire(
                        term_sizes(inner_terms),
                        rank_combinations,
                        start,
                        outer,
                        0,
                        usize::MAX as int,
                    );
                    match rewire(term_sizes(inner_terms), rank_combinations, start, outer, 0) {
                        Err(_) => {},
                        Ok(rows) => {
                            let grown = Flat {
                                terms: done.terms + inner_terms,
                                combinations: done.combinations + rows,
                            };
                            assert(no_contraction(grown.terms)) by {
                                assert forall|k: int| 0 <= k < grown.terms.len() implies !((
                                #[trigger] grown.terms[k]) is InnerProd) by {
                                    if k < done.terms.len() {
                                        assert(grown.terms[k] == done.terms[k]);
                                    } else {
                                        assert(grown.terms[k] == inner_terms[k - done.terms.len()]);
                                    }
                                }
                            }
                            assert(ids_below(grown.combinations, usize::MAX as int)) by {
                                assert forall|k: int, q: int|
                                    0 <= k < grown.combinations.len() && 0 <= q
                                        < grown.combinations[k].len() implies (
                                #[trigger] grown.combinations[k][q]).1 < usize::MAX by {
                                    if k < done.combinations.len() {
                                        assert(grown.combinations[k] == done.combinations[k]);
                                        assert(done.combinations[k][q].1 < usize::MAX);
                                    } else {
                                        assert(grown.combinations[k] == rows[k
                                            - done.combinations.len()]);
                                        assert(rows[k - done.combinations.len()][q].1
                                            < usize::MAX);
                                    }
                                }
                            }
                            if has_zero(done.terms) {
                                let z = choose|z: int|
                                    0 <= z < done.terms.len() && (#[trigger] done.terms[z]) is Zero;
                                assert(grown.terms[z] is Zero);
                            }
                            lemma_flatten(terms, combinations, i + 1, shift + span, grown);
                        },
                    }
                }
            },
            other => {
                let grown = Flat {
                    terms: done.terms.push(other),
                    combinations: done.combinations.push(combination_at(combinations, i)),
                };
                assert(no_contraction(grown.terms)) by {
                    assert forall|k: int| 0 <= k < grown.terms.len() implies !((
                    #[trigger] grown.terms[k]) is InnerProd) by {
                        if k < done.terms.len() {
                            assert(grown.terms[k] == done.terms[k]);
                        }
                    }
                }
                assert(ids_below(grown.combinations, usize::MAX as int)) by {
                    assert forall|k: int, q: int|
                        0 <= k < grown.combinations.len() && 0 <= q
                            < grown.combinations[k].len() implies (
                    #[trigger] grown.combinations[k][q]).1 < usize::MAX by {
                        if k < done.combinations.len() {
                            assert(grown.combinations[k] == done.combinations[k]);
                            assert(done.combinations[k][q].1 < usize::MAX);
                        } else {
                            assert(grown.combinations[k] == combinations[i]);
                            assert(combinations[i][q].1 < usize::MAX);
                        }
                    }
                }
                if has_zero(done.terms) {
                    let z = choose|z: int|
                        0 <= z < done.terms.len() && (#[trigger] done.terms[z]) is Zero;
                    assert(grown.terms[z] is Zero);
                }
                if other is Zero {
                    assert(grown.terms[done.terms.len() as int] is Zero);
                }
                lemma_flatten(terms, combinations, i + 1, next, grown);
            },
        }
    }
}

/// Flattening terms that hold no contraction keeps them as they are.
pub proof fn lemma_flatten_flat(
    terms: Seq<TensorModel>,
    combinations: Seq<Seq<(usize, usize)>>,
    i: int,
    shift: nat,
    done: Flat,
)
    requires
        0 <= i <= terms.len(),
        terms.len() == combinations.len(),
        forall|k: int| i <= k < terms.len() ==> !((#[trigger] terms[k]) is InnerProd),
    ensures
        flatten_from(terms, combinations, i, shift, done) == Ok::<Flat, AlgebraError>(
            Flat {
                terms: done.terms + terms.subrange(i, terms.len() as int),
                combinations: done.combinations + combinations.subrange(
                    i,
                    combinations.len() as int,
                ),
            },
        ),
    decreases terms.len() - i,
{
    if i < terms.len() {
        assert(!(terms[i] is InnerProd));
        let next = Flat {
            terms: done.terms.push(terms[i]),
            combinations: done.combinations.push(combination_at(combinations, i)),
        };
        lemma_flatten_flat(terms, combinations, i + 1, shift, next);
        assert(next.terms + terms.subrange(i + 1, terms.len() as int) =~= done.terms
            + terms.subrange(i, terms.len() as int));
        assert(next.combinations + combinations.subrange(i + 1, combinations.len() as int)
            =~= done.combinations + combinations.subrange(i, combinations.len() as int));
    } else {
        assert(done.terms + terms.subrange(i, terms.len() as int) =~= done.terms);
        assert(done.combinations + combinations.subrange(i, combinations.len() as int)
            =~= done.combinations);
    }
}

/// Flattening is the same as building the contraction of all the terms at
/// once: where the terms of a contraction are contractions themselves, as
/// the engine builds them, the contraction of what flattening gives (the
/// terms of the nested contractions in their place, each with its own rank
/// combination and the outer entries rewired onto it) is the contraction of
/// the nested terms.  What flattening gives holds no contraction.
pub proof fn law_flattening(terms: Seq<TensorModel>, combinations: Seq<Seq<(usize, usize)>>)
    requires
        terms.len() == combinations.len(),
        shallow(terms),
        rows_distinct(combinations),
        nested_distinct(terms),
        fresh_id(combinations) <= usize::MAX,
    ensures
        flatten_from(
            terms,
            combinations,
            0,
            fresh_id(combinations),
            Flat { terms: Seq::empty(), combinations: Seq::empty() },
        ) matches Ok(flat) ==> {
            &&& no_contraction(flat.terms)
            &&& flat.terms.len() > 0 ==> contraction(flat.terms, flat.combinations) == contraction(
                terms,
                combinations,
            )
        },
{
    let start = Flat { terms: Seq::empty(), combinations: Seq::empty() };
    lemma_ids_below_fresh(combinations);
    lemma_flatten(terms, combinations, 0, fresh_id(combinations), start);
    lemma_flatten_distinct(terms, combinations, 0, fresh_id(combinations), start);
    match flatten_from(terms, combinations, 0, fresh_id(combinations), start) {
        Err(_) => {},
        Ok(flat) => {
            if flat.terms.len() > 0 {
                assert(terms.len() > 0);
                lemma_fresh_id_below(flat.combinations);
                lemma_flatten_flat(
                    flat.terms,
                    flat.combinations,
                    0,
                    fresh_id(flat.combinations),
                    start,
                );
                assert(start.terms + flat.terms.subrange(0, flat.terms.len() as int)
                    =~= flat.terms);
                assert(start.combinations + flat.combinations.subrange(
                    0,
                    flat.combinations.len() as int,
                ) =~= flat.combinations);
            }
        },
    }
}

/// Whether an entry of the outer combination before `j` has the rank.
pub open spec fn rewired_before(outer: Seq<(usize, usize)>, j: int, rank: int) -> bool {
    exists|m: int| 0 <= m < j && (#[trigger] outer[m]).0 == rank
}

/// Every rank of the row is one that the term contracted itself, or one
/// that was rewired onto it before entry `j` of the outer combination.
pub open spec fn ranks_accounted(
    row: Seq<(usize, usize)>,
    own: Seq<(usize, usize)>,
    outer: Seq<(usize, usize)>,
    j: int,
) -> bool {
    forall|q: int|
        0 <= q < row.len() ==> contracts(own, (#[trigger] row[q]).0 as int) || rewired_before(
            outer,
            j,
            row[q].0 as int,
        )
}

/// Rewiring puts no rank twice into a rank combination: an outer entry goes
/// to a term that claims its rank, which the term therefore does not
/// contract itself, and no two outer entries have one rank.
pub proof fn lemma_rewire_distinct(
    shapes: Seq<Seq<Size>>,
    inner: Seq<Seq<(usize, usize)>>,
    current: Seq<Seq<(usize, usize)>>,
    outer: Seq<(usize, usize)>,
    j: int,
)
    requires
        0 <= j,
        distinct_ranks(outer),
        rows_distinct(current),
        forall|k: int|
            0 <= k < current.len() ==> ranks_accounted(
                #[trigger] current[k],
                combination_at(inner, k),
                outer,
                j,
            ),
    ensures
        rewire(shapes, inner, current, outer, j) matches Ok(rows) ==> rows_distinct(rows),
    decreases outer.len() - j,
{
    if j < outer.len() {
        let rank = outer[j].0 as int;
        match sole_claimant(shapes, inner, rank) {
            None => {},
            Some(owner) => {
                if 0 <= owner < current.len() {
                    lemma_first_claimant(shapes, inner, rank, 0);
                    assert(claims(shapes, inner, owner, rank));
                    let own = combination_at(inner, owner);
                    assert(!contracts(own, rank));
                    let row = current[owner];
                    let longer = row.push(outer[j]);
                    let next = current.update(owner, longer);
                    assert(ranks_accounted(row, own, outer, j));
                    assert(distinct_ranks(longer)) by {
                        assert forall|a: int, b: int| 0 <= a < b < longer.len() implies (
                        #[trigger] longer[a]).0 != (#[trigger] longer[b]).0 by {
                            if b < row.len() {
                                assert(longer[a] == row[a]);
                                assert(longer[b] == row[b]);
                            } else {
                                assert(longer[a] == row[a]);
                                assert(longer[b] == outer[j]);
                                if row[a].0 == outer[j].0 {
                                    if rewired_before(outer, j, row[a].0 as int) {
                                        let m = choose|m: int|
                                            0 <= m < j && (#[trigger] outer[m]).0
                                                == row[a].0 as int;
                                        assert(outer[m].0 != outer[j].0);
                                    }
                                }
                            }
                        }
                    }
                    assert(rows_distinct(next)) by {
                        assert forall|k: int| 0 <= k < next.len() implies distinct_ranks(
                            #[trigger] next[k],
                        ) by {
                            if k != owner {
                                assert(next[k] == current[k]);
                            }
                        }
                    }
                    assert forall|k: int| 0 <= k < next.len() implies ranks_accounted(
                        #[trigger] next[k],
                        combination_at(inner, k),
                        outer,
                        j + 1,
                    ) by {
                        let before = current[k];
                        assert(ranks_accounted(before, combination_at(inner, k), outer, j));
                        assert forall|q: int| 0 <= q < next[k].len() implies contracts(
                            combination_at(inner, k),
                            (#[trigger] next[k][q]).0 as int,
                        ) || rewired_before(outer, j + 1, next[k][q].0 as int) by {
                            if k == owner && q == row.len() {
                                assert(next[k][q] == outer[j]);
                                assert(outer[j].0 == next[k][q].0);
                            } else {
                                assert(next[k][q] == before[q]);
                                if rewired_before(outer, j, before[q].0 as int) {
                                    let m = choose|m: int|
                                        0 <= m < j && (#[trigger] outer[m]).0
                                            == before[q].0 as int;
                                    assert(0 <= m < j + 1 && outer[m].0 == before[q].0 as int);
                                }
                            }
                        }
                    }
                    lemma_rewire_distinct(shapes, inner, next, outer, j + 1);
                }
            },
        }
    }
}

/// Flattening puts no rank twice into a rank combination, where no rank
/// stands twice in any combination it is given.
pub proof fn lemma_flatten_distinct(
    terms: Seq<TensorModel>,
    combinations: Seq<Seq<(usize, usize)>>,
    i: int,
    next: nat,
    done: Flat,
)
    requires
        0 <= i,
        terms.len() == combinations.len(),
        rows_distinct(combinations),
        nested_distinct(terms),
        rows_distinct(done.combinations),
    ensures
        flatten_from(terms, combinations, i, next, done) matches Ok(flat) ==> rows_distinct(
            flat.combinations,
        ),
    decreases terms.len() - i,
{
    if i < terms.len() {
        let outer = combination_at(combinations, i);
        assert(distinct_ranks(combinations[i]));
        match terms[i] {
            TensorModel::InnerProd { terms: inner_terms, rank_combinations } => {
                let span = fresh_id(rank_combinations);
                let shift = shift_for(next, span);
                if shift + span <= usize::MAX {
                    let start = lifted(
                        rank_combinations,
                        inner_terms.len(),
                        shift,
                        combinations,
                        done.combinations,
                    );
                    assert(rows_distinct(rank_combinations));
                    assert forall|k: int| 0 <= k < start.len() implies distinct_ranks(
                        #[trigger] start[k],
                    ) && ranks_accounted(
                        start[k],
                        combination_at(rank_combinations, k),
                        outer,
                        0,
                    ) by {
                        let own = combination_at(rank_combinations, k);
                        assert(start[k] == renamed(own, shift, combinations, done.combinations));
                        if 0 <= k < rank_combinations.len() {
                            assert(distinct_ranks(rank_combinations[k]));
                        }
                        assert forall|a: int, b: int| 0 <= a < b < start[k].len() implies (
                        #[trigger] start[k][a]).0 != (#[trigger] start[k][b]).0 by {
                            assert(start[k][a].0 == own[a].0);
                            assert(start[k][b].0 == own[b].0);
                        }
                        assert forall|q: int| 0 <= q < start[k].len() implies contracts(
                            own,
                            (#[trigger] start[k][q]).0 as int,
                        ) || rewired_before(outer, 0, start[k][q].0 as int) by {
                            assert(own[q].0 == start[k][q].0);
                        }
                    }
                    lemma_rewire_distinct(
                        term_sizes(inner_terms),
                        rank_combinations,
                        start,
                        outer,
                        0,
                    );
                    match rewire(term_sizes(inner_terms), rank_combinations, start, outer, 0) {
                        Err(_) => {},
                        Ok(rows) => {
                            let grown = Flat {
                                terms: done.terms + inner_terms,
                                combinations: done.combinations + rows,
                            };
                            assert forall|k: int|
                                0 <= k < grown.combinations.len() implies distinct_ranks(
                                #[trigger] grown.combinations[k],
                            ) by {
                                if k < done.combinations.len() {
                                    assert(grown.combinations[k] == done.combinations[k]);
                                } else {
                                    assert(grown.combinations[k] == rows[k
                                        - done.combinations.len()]);
                                }
                            }
                            lemma_flatten_distinct(terms, combinations, i + 1, shift + span, grown);
                        },
                    }
                }
            },
            other => {
                let grown = Flat {
                    terms: done.terms.push(other),
                    combinations: done.combinations.push(outer),
                };
                assert forall|k: int| 0 <= k < grown.combinations.len() implies distinct_ranks(
                    #[trigger] grown.combinations[k],
                ) by {
                    if k < done.combinations.len() {
                        assert(grown.combinations[k] == done.combinations[k]);
                    } else {
                        assert(grown.combinations[k] == combinations[i]);
                    }
                }
                lemma_flatten_distinct(terms, combinations, i + 1, next, grown);
            },
        }
    }
}

/// The rank combinations of an absorbed contraction as they are, one for
/// each of its terms.
pub open spec fn padded(inner: Seq<Seq<(usize, usize)>>, count: nat) -> Seq<Seq<(usize, usize)>> {
    Seq::new(count, |k: int| combination_at(inner, k))
}

/// No identifier of the inner rank combinations stands in the outer ones.
pub open spec fn apart(inner: Seq<Seq<(usize, usize)>>, outer: Seq<Seq<(usize, usize)>>) -> bool {
    forall|k: int, j: int|
        0 <= k < inner.len() && 0 <= j < inner[k].len() ==> !occurs(
            outer,
            (#[trigger] inner[k][j]).1,
        )
}

/// Flattening keeps the identifiers that do not collide: where a nested
/// contraction stands first, the other terms are no contractions, and no
/// identifier of the nested one is used by the outer rank combinations,
/// flattening gives the nested terms followed by the others, the nested
/// terms with their own rank combinations and the outer entries rewired
/// onto them, the others with theirs.  That is the union of the rank
/// combinations.
pub proof fn law_flattening_keeps_identifiers(
    inner_terms: Seq<TensorModel>,
    inner_rows: Seq<Seq<(usize, usize)>>,
    rest_terms: Seq<TensorModel>,
    combinations: Seq<Seq<(usize, usize)>>,
)
    requires
        combinations.len() == rest_terms.len() + 1,
        no_contraction(rest_terms),
        apart(inner_rows, combinations),
        shift_for(fresh_id(combinations), fresh_id(inner_rows)) + fresh_id(inner_rows)
            <= usize::MAX,
    ensures
        flatten_from(
            seq![TensorModel::InnerProd { terms: inner_terms, rank_combinations: inner_rows }]
                + rest_terms,
            combinations,
            0,
            fresh_id(combinations),
            Flat { terms: Seq::empty(), combinations: Seq::empty() },
        ) == match rewire(
            term_sizes(inner_terms),
            inner_rows,
            padded(inner_rows, inner_terms.len()),
            combinations[0],
            0,
        ) {
            Ok(rows) => Ok::<Flat, AlgebraError>(
                Flat {
                    terms: inner_terms + rest_terms,
                    combinations: rows + combinations.subrange(1, combinations.len() as int),
                },
            ),
            Err(e) => Err::<Flat, AlgebraError>(e),
        },
{
    let nested = TensorModel::InnerProd { terms: inner_terms, rank_combinations: inner_rows };
    let terms = seq![nested] + rest_terms;
    let start = Flat { terms: Seq::<TensorModel>::empty(), combinations: Seq::empty() };
    let span = fresh_id(inner_rows);
    let shift = shift_for(fresh_id(combinations), span);
    let raised = lifted(inner_rows, inner_terms.len(), shift, combinations, start.combinations);
    assert(terms[0] == nested);
    assert(raised =~= padded(inner_rows, inner_terms.len())) by {
        assert forall|k: int| 0 <= k < raised.len() implies raised[k] =~= combination_at(
            inner_rows,
            k,
        ) by {
            let own = combination_at(inner_rows, k);
            assert forall|j: int| 0 <= j < own.len() implies !taken(
                combinations,
                start.combinations,
                (#[trigger] own[j]).1,
            ) by {
                assert(!occurs(combinations, inner_rows[k][j].1));
            }
        }
    }
    match rewire(term_sizes(inner_terms), inner_rows, raised, combinations[0], 0) {
        Err(_) => {},
        Ok(rows) => {
            let grown = Flat {
                terms: start.terms + inner_terms,
                combinations: start.combinations + rows,
            };
            assert forall|k: int| 1 <= k < terms.len() implies !((#[trigger] terms[k])
                is InnerProd) by {
                assert(terms[k] == rest_terms[k - 1]);
            }
            lemma_flatten_flat(terms, combinations, 1, shift + span, grown);
            assert(grown.terms + terms.subrange(1, terms.len() as int) =~= inner_terms
                + rest_terms);
            assert(grown.combinations =~= rows);
        },
    }
}

/// The one claimant of a rank is the term that claims it while no other
/// term does: the rank is free in it, with more than one element, and in
/// no other term.  There is none where no term claims the rank, or two do.
pub proof fn law_sole_claimant(
    shapes: Seq<Seq<Size>>,
    combinations: Seq<Seq<(usize, usize)>>,
    rank: int,
)
    ensures
        forall|k: int|
            sole_claimant(shapes, combinations, rank) == Some(k) <==> (#[trigger] claims(
                shapes,
                combinations,
                k,
                rank,
            ) && forall|b: int| b != k ==> !claims(shapes, combinations, b, rank)),
        sole_claimant(shapes, combinations, rank) matches Some(k) ==> 0 <= k < shapes.len(),
{
    let first = first_claimant(shapes, combinations, rank, 0);
    lemma_first_claimant(shapes, combinations, rank, 0);
    lemma_first_claimant(shapes, combinations, rank, first + 1);
    assert forall|k: int|
        sole_claimant(shapes, combinations, rank) == Some(k) <==> (#[trigger] claims(
            shapes,
            combinations,
            k,
            rank,
        ) && forall|b: int| b != k ==> !claims(shapes, combinations, b, rank)) by {
        let second = first_claimant(shapes, combinations, rank, first + 1);
        if claims(shapes, combinations, k, rank) && (forall|b: int|
            b != k ==> !claims(shapes, combinations, b, rank)) {
            if first < k {
                assert(claims(shapes, combinations, first, rank));
            }
            assert(first == k);
            if second < shapes.len() {
                assert(claims(shapes, combinations, second, rank));
            }
        }
        if sole_claimant(shapes, combinations, rank) == Some(k) {
            assert(first == k);
            assert forall|b: int| b != k implies !claims(shapes, combinations, b, rank) by {
                if b < 0 || b >= shapes.len() {
                } else if b < first {
                } else {
                    assert(first + 1 <= b < second);
                }
            }
        }
    }
}

/// The entries of an outer rank combination, up to entry `j`, that are
/// rewired onto term `k` of an absorbed contraction: those whose rank `k`
/// alone claims, in their order.
pub open spec fn attached(
    shapes: Seq<Seq<Size>>,
    inner: Seq<Seq<(usize, usize)>>,
    outer: Seq<(usize, usize)>,
    k: int,
    j: int,
) -> Seq<(usize, usize)>
    decreases j,
{
    if j <= 0 || j > outer.len() {
        Seq::empty()
    } else {
        let before = attached(shapes, inner, outer, k, j - 1);
        if sole_claimant(shapes, inner, outer[j - 1].0 as int) == Some(k) {
            before.push(outer[j - 1])
        } else {
            before
        }
    }
}

/// Whether every entry of an outer rank combination has one claimant
/// among the terms of an absorbed contraction.
pub open spec fn all_owned(
    shapes: Seq<Seq<Size>>,
    inner: Seq<Seq<(usize, usize)>>,
    outer: Seq<(usize, usize)>,
) -> bool {
    forall|j: int|
        0 <= j < outer.len() ==> sole_claimant(shapes, inner, (#[trigger] outer[j]).0 as int)
            is Some
}

/// Rewiring from entry `j` on, where each term has what it began with and
/// the entries before `j` that are attached to it.
proof fn lemma_rewire_attaches(
    shapes: Seq<Seq<Size>>,
    inner: Seq<Seq<(usize, usize)>>,
    start: Seq<Seq<(usize, usize)>>,
    current: Seq<Seq<(usize, usize)>>,
    outer: Seq<(usize, usize)>,
    j: int,
)
    requires
        0 <= j <= outer.len(),
        shapes.len() == start.len(),
        current.len() == start.len(),
        forall|k: int|
            0 <= k < start.len() ==> #[trigger] current[k] == start[k] + attached(
                shapes,
                inner,
                outer,
                k,
                j,
            ),
        forall|m: int|
            0 <= m < j ==> sole_claimant(shapes, inner, (#[trigger] outer[m]).0 as int) is Some,
    ensures
        match rewire(shapes, inner, current, outer, j) {
            Ok(rows) => {
                &&& all_owned(shapes, inner, outer)
                &&& rows.len() == start.len()
                &&& forall|k: int|
                    0 <= k < start.len() ==> #[trigger] rows[k] == start[k] + attached(
                        shapes,
                        inner,
                        outer,
                        k,
                        outer.len() as int,
                    )
            },
            Err(e) => e == AlgebraError::AmbiguousContraction && !all_owned(shapes, inner, outer),
        },
    decreases outer.len() - j,
{
    if j < outer.len() {
        lemma_first_claimant(shapes, inner, outer[j].0 as int, 0);
        match sole_claimant(shapes, inner, outer[j].0 as int) {
            None => {},
            Some(owner) => {
                let next = current.update(owner, current[owner].push(outer[j]));
                assert forall|k: int| 0 <= k < start.len() implies #[trigger] next[k] == start[k]
                    + attached(shapes, inner, outer, k, j + 1) by {
                    if k == owner {
                        assert(next[k] =~= start[k] + attached(shapes, inner, outer, k, j).push(
                            outer[j],
                        ));
                    } else {
                        assert(next[k] == current[k]);
                    }
                }
                assert forall|m: int| 0 <= m < j + 1 implies sole_claimant(
                    shapes,
                    inner,
                    (#[trigger] outer[m]).0 as int,
                ) is Some by {}
                lemma_rewire_attaches(shapes, inner, start, next, outer, j + 1);
            },
        }
    }
}

/// Rewiring attaches each entry of the outer rank combination to the one
/// term that claims its rank, and to no other; every entry that a term had
/// before is kept, in its place.  It fails, as ambiguous, exactly where an
/// entry has no claimant or several.
pub proof fn law_rewiring(
    shapes: Seq<Seq<Size>>,
    inner: Seq<Seq<(usize, usize)>>,
    start: Seq<Seq<(usize, usize)>>,
    outer: Seq<(usize, usize)>,
)
    requires
        shapes.len() == start.len(),
    ensures
        match rewire(shapes, inner, start, outer, 0) {
            Ok(rows) => {
                &&& all_owned(shapes, inner, outer)
                &&& rows.len() == start.len()
                &&& forall|k: int|
                    0 <= k < start.len() ==> #[trigger] rows[k] == start[k] + attached(
                        shapes,
                        inner,
                        outer,
                        k,
                        outer.len() as int,
                    )
            },
            Err(e) => e == AlgebraError::AmbiguousContraction && !all_owned(shapes, inner, outer),
        },
{
    assert forall|k: int| 0 <= k < start.len() implies #[trigger] start[k] == start[k] + attached(
        shapes,
        inner,
        outer,
        k,
        0,
    ) by {
        assert(start[k] + Seq::<(usize, usize)>::empty() =~= start[k]);
    }
    lemma_rewire_attaches(shapes, inner, start, start, outer, 0);
}

/// The rank combinations that the terms of an absorbed contraction have
/// in the contraction that absorbs it: each term keeps its own entries, an
/// identifier that is in use outside moved up by `shift`, and gains the
/// outer entries of the ranks that it alone claims.
pub open spec fn union_rows(
    inner_terms: Seq<TensorModel>,
    inner_rows: Seq<Seq<(usize, usize)>>,
    shift: nat,
    combinations: Seq<Seq<(usize, usize)>>,
) -> Seq<Seq<(usize, usize)>> {
    Seq::new(
        inner_terms.len(),
        |k: int|
            renamed(combination_at(inner_rows, k), shift, combinations, Seq::empty()) + attached(
                term_sizes(inner_terms),
                inner_rows,
                combination_at(combinations, 0),
                k,
                combination_at(combinations, 0).len() as int,
            ),
    )
}

/// Flattening equivalence.  A contraction whose first term is a contraction
/// itself, of terms that are none, is the contraction of all the terms at
/// once under the union of the rank combinations: the nested terms with
/// their own entries and the outer entries of the ranks they own, the
/// other terms with theirs.  Whatever the identifiers: one of the nested
/// contraction that is in use outside is moved above all others.  Where an
/// outer entry has no single owner among the nested terms, the contraction
/// is ambiguous.
pub proof fn law_nested_contraction(
    inner_terms: Seq<TensorModel>,
    inner_rows: Seq<Seq<(usize, usize)>>,
    rest_terms: Seq<TensorModel>,
    combinations: Seq<Seq<(usize, usize)>>,
)
    requires
        combinations.len() == rest_terms.len() + 1,
        inner_terms.len() + rest_terms.len() > 0,
        no_contraction(inner_terms),
        no_contraction(rest_terms),
        rows_distinct(combinations),
        rows_distinct(inner_rows),
        shift_for(fresh_id(combinations), fresh_id(inner_rows)) + fresh_id(inner_rows)
            <= usize::MAX,
    ensures
        ({
            let nested = TensorModel::InnerProd {
                terms: inner_terms,
                rank_combinations: inner_rows,
            };
            let shift = shift_for(fresh_id(combinations), fresh_id(inner_rows));
            let whole = contraction(seq![nested] + rest_terms, combinations);
            if all_owned(term_sizes(inner_terms), inner_rows, combinations[0]) {
                whole == contraction(
                    inner_terms + rest_terms,
                    union_rows(inner_terms, inner_rows, shift, combinations)
                        + combinations.subrange(1, combinations.len() as int),
                )
            } else {
                whole == Err::<TensorModel, AlgebraError>(AlgebraError::AmbiguousContraction)
            }
        }),
{
    let nested = TensorModel::InnerProd { terms: inner_terms, rank_combinations: inner_rows };
    let terms = seq![nested] + rest_terms;
    let start = Flat { terms: Seq::<TensorModel>::empty(), combinations: Seq::empty() };
    let span = fresh_id(inner_rows);
    let shift = shift_for(fresh_id(combinations), span);
    let shapes = term_sizes(inner_terms);
    let outer = combinations[0];
    let raised = lifted(inner_rows, inner_terms.len(), shift, combinations, start.combinations);
    assert(terms[0] == nested);
    assert(combination_at(combinations, 0) == outer);
    assert(shapes.len() == inner_terms.len());
    assert(shallow(terms)) by {
        assert forall|k: int| 0 <= k < terms.len() && (#[trigger] terms[k])
            is InnerProd implies no_contraction(terms[k]->terms) by {
            if k > 0 {
                assert(terms[k] == rest_terms[k - 1]);
            }
        }
    }
    assert(nested_distinct(terms)) by {
        assert forall|k: int| 0 <= k < terms.len() && (#[trigger] terms[k])
            is InnerProd implies rows_distinct(terms[k]->rank_combinations) by {
            if k > 0 {
                assert(terms[k] == rest_terms[k - 1]);
            }
        }
    }
    law_rewiring(shapes, inner_rows, raised, outer);
    match rewire(shapes, inner_rows, raised, outer, 0) {
        Err(_) => {},
        Ok(rows) => {
            let grown = Flat {
                terms: start.terms + inner_terms,
                combinations: start.combinations + rows,
            };
            assert forall|k: int| 1 <= k < terms.len() implies !((#[trigger] terms[k])
                is InnerProd) by {
                assert(terms[k] == rest_terms[k - 1]);
            }
            lemma_flatten_flat(terms, combinations, 1, shift + span, grown);
            assert(grown.terms + terms.subrange(1, terms.len() as int) =~= inner_terms
                + rest_terms);
            assert(rows =~= union_rows(inner_terms, inner_rows, shift, combinations));
            assert(grown.combinations =~= rows);
            law_flattening(terms, combinations);
        },
    }
}

/// Every term is a symbol.
pub open spec fn symbols_only(terms: Seq<TensorModel>) -> bool {
    forall|k: int| 0 <= k < terms.len() ==> (#[trigger] terms[k]) is Symbol
}

/// The fusion of terms that are symbols keeps them all, in their order.
proof fn lemma_fusion_of_symbols(flat: Flat, i: int, done: Fusion)
    requires
        0 <= i <= flat.terms.len(),
        flat.terms.len() == flat.combinations.len(),
        symbols_only(flat.terms),
    ensures
        fuse_from(flat, i, done) == (Fusion {
            pairs: done.pairs,
            combination: done.combination,
            found: done.found,
            rest: Flat {
                terms: done.rest.terms + flat.terms.subrange(i, flat.terms.len() as int),
                combinations: done.rest.combinations + flat.combinations.subrange(
                    i,
                    flat.combinations.len() as int,
                ),
            },
        }),
    decreases flat.terms.len() - i,
{
    if i < flat.terms.len() {
        assert(flat.terms[i] is Symbol);
        let next = Fusion {
            pairs: done.pairs,
            combination: done.combination,
            found: done.found,
            rest: Flat {
                terms: done.rest.terms.push(flat.terms[i]),
                combinations: done.rest.combinations.push(combination_at(flat.combinations, i)),
            },
        };
        lemma_fusion_of_symbols(flat, i + 1, next);
        assert(next.rest.terms + flat.terms.subrange(i + 1, flat.terms.len() as int)
            =~= done.rest.terms + flat.terms.subrange(i, flat.terms.len() as int));
        assert(next.rest.combinations + flat.combinations.subrange(
            i + 1,
            flat.combinations.len() as int,
        ) =~= done.rest.combinations + flat.combinations.subrange(
            i,
            flat.combinations.len() as int,
        ));
    } else {
        assert(done.rest.terms + flat.terms.subrange(i, flat.terms.len() as int)
            =~= done.rest.terms);
        assert(done.rest.combinations + flat.combinations.subrange(
            i,
            flat.combinations.len() as int,
        ) =~= done.rest.combinations);
    }
}

/// The contraction of symbols is the node of those terms under those rank
/// combinations, as they are given: where there is a term, one combination
/// for each, no rank twice in a combination, identifiers within the
/// machine's integers, and no rank that two terms claim.
pub proof fn law_contraction_of_symbols(
    terms: Seq<TensorModel>,
    combinations: Seq<Seq<(usize, usize)>>,
)
    requires
        symbols_only(terms),
    ensures
        contraction(terms, combinations) matches Ok(node) ==> node == (TensorModel::InnerProd {
            terms,
            rank_combinations: combinations,
        }),
        contraction(terms, combinations) is Ok <==> {
            &&& terms.len() > 0
            &&& terms.len() == combinations.len()
            &&& rows_distinct(combinations)
            &&& fresh_id(combinations) <= usize::MAX
            &&& !conflict(term_sizes(terms), combinations)
        },
{
    if terms.len() > 0 && terms.len() == combinations.len() {
        let start = Flat { terms: Seq::<TensorModel>::empty(), combinations: Seq::empty() };
        let flat = Flat { terms, combinations };
        assert(nested_distinct(terms));
        assert(no_contraction(terms));
        lemma_flatten_flat(terms, combinations, 0, fresh_id(combinations), start);
        assert(start.terms + terms.subrange(0, terms.len() as int) =~= terms);
        assert(start.combinations + combinations.subrange(0, combinations.len() as int)
            =~= combinations);
        assert(!has_zero(terms));
        let none = Fusion {
            pairs: Seq::empty(),
            combination: Seq::empty(),
            found: false,
            rest: start,
        };
        lemma_fusion_of_symbols(flat, 0, none);
        assert(gathered(flat).rest == flat);
        assert(flat.terms[0] is Symbol);
    }
}

/// Flattening equivalence for a contraction that the engine has built: the
/// contraction of symbols `inner_terms`, put first among other terms that
/// are no contractions, is contracted with them as all the terms are at
/// once, under the union of the rank combinations.
pub proof fn law_flattening_equivalence(
    inner_terms: Seq<TensorModel>,
    inner_rows: Seq<Seq<(usize, usize)>>,
    rest_terms: Seq<TensorModel>,
    combinations: Seq<Seq<(usize, usize)>>,
)
    requires
        symbols_only(inner_terms),
        contraction(inner_terms, inner_rows) is Ok,
        combinations.len() == rest_terms.len() + 1,
        no_contraction(rest_terms),
        rows_distinct(combinations),
        shift_for(fresh_id(combinations), fresh_id(inner_rows)) + fresh_id(inner_rows)
            <= usize::MAX,
        all_owned(term_sizes(inner_terms), inner_rows, combinations[0]),
    ensures
        contraction(seq![contraction(inner_terms, inner_rows)->Ok_0] + rest_terms, combinations)
            == contraction(
            inner_terms + rest_terms,
            union_rows(
                inner_terms,
                inner_rows,
                shift_for(fresh_id(combinations), fresh_id(inner_rows)),
                combinations,
            ) + combinations.subrange(1, combinations.len() as int),
        ),
{
    law_contraction_of_symbols(inner_terms, inner_rows);
    assert(no_contraction(inner_terms));
    law_nested_contraction(inner_terms, inner_rows, rest_terms, combinations);
}

/// Flattening counts no rank twice: where no rank stands twice in a rank
/// combination of the contraction or of a nested one, none stands twice in
/// a rank combination of what flattening gives.
pub proof fn law_no_rank_twice(terms: Seq<TensorModel>, combinations: Seq<Seq<(usize, usize)>>)
    requires
        terms.len() == combinations.len(),
        rows_distinct(combinations),
        nested_distinct(terms),
    ensures
        flatten_from(
            terms,
            combinations,
            0,
            fresh_id(combinations),
            Flat { terms: Seq::empty(), combinations: Seq::empty() },
        ) matches Ok(flat) ==> rows_distinct(flat.combinations),
{
    lemma_flatten_distinct(
        terms,
        combinations,
        0,
        fresh_id(combinations),
        Flat { terms: Seq::empty(), combinations: Seq::empty() },
    );
}

/// What the fusion keeps of the rank combinations is from the flattened
/// ones, so no rank stands twice in it where none does in those.
pub proof fn lemma_fusion_distinct(flat: Flat, i: int, done: Fusion)
    requires
        0 <= i,
        rows_distinct(flat.combinations),
        rows_distinct(done.rest.combinations),
    ensures
        rows_distinct(fuse_from(flat, i, done).rest.combinations),
    decreases flat.terms.len() - i,
{
    if i < flat.terms.len() {
        match flat.terms[i] {
            TensorModel::KroneckerDeltas(pairs) => {
                lemma_fusion_distinct(
                    flat,
                    i + 1,
                    Fusion {
                        pairs: done.pairs + pairs,
                        combination: done.combination + combination_at(flat.combinations, i),
                        found: true,
                        rest: done.rest,
                    },
                );
            },
            other => {
                let row = combination_at(flat.combinations, i);
                let grown = done.rest.combinations.push(row);
                assert(distinct_ranks(row)) by {
                    if 0 <= i < flat.combinations.len() {
                        assert(distinct_ranks(flat.combinations[i]));
                    }
                }
                assert forall|k: int| 0 <= k < grown.len() implies distinct_ranks(
                    #[trigger] grown[k],
                ) by {
                    if k < done.rest.combinations.len() {
                        assert(grown[k] == done.rest.combinations[k]);
                    }
                }
                lemma_fusion_distinct(
                    flat,
                    i + 1,
                    Fusion {
                        pairs: done.pairs,
                        combination: done.combination,
                        found: done.found,
                        rest: Flat {
                            terms: done.rest.terms.push(other),
                            combinations: grown,
                        },
                    },
                );
            },
        }
    }
}

/// A contraction has no rank twice in any of its rank combinations: what
/// the engine builds keeps to what a map from ranks to identifiers holds.
pub proof fn law_rows_distinct(terms: Seq<TensorModel>, combinations: Seq<Seq<(usize, usize)>>)
    ensures
        contraction(terms, combinations) matches Ok(node) ==> (node is InnerProd
            ==> rows_distinct(node->rank_combinations)),
{
    let start = Flat { terms: Seq::<TensorModel>::empty(), combinations: Seq::empty() };
    if terms.len() == combinations.len() && rows_distinct(combinations) && nested_distinct(
        terms,
    ) {
        lemma_flatten_distinct(terms, combinations, 0, fresh_id(combinations), start);
        match flatten_from(terms, combinations, 0, fresh_id(combinations), start) {
            Err(_) => {},
            Ok(flat) => {
                let fusion = gathered(flat);
                lemma_fusion_distinct(
                    flat,
                    0,
                    Fusion {
                        pairs: Seq::empty(),
                        combination: Seq::empty(),
                        found: false,
                        rest: Flat { terms: Seq::empty(), combinations: Seq::empty() },
                    },
                );
                if distinct_ranks(fusion.combination) {
                    let rows = seq![fusion.combination] + fusion.rest.combinations;
                    assert forall|k: int| 0 <= k < rows.len() implies distinct_ranks(
                        #[trigger] rows[k],
                    ) by {
                        if k > 0 {
                            assert(rows[k] == fusion.rest.combinations[k - 1]);
                        }
                    }
                }
            },
        }
    }
}

/// Flattening keeps a zero term: one that was flattened before, or one
/// that is still to come.
pub proof fn lemma_flatten_keeps_zero(
    terms: Seq<TensorModel>,
    combinations: Seq<Seq<(usize, usize)>>,
    i: int,
    next: nat,
    done: Flat,
)
    requires
        0 <= i,
    ensures
        flatten_from(terms, combinations, i, next, done) matches Ok(flat) ==> {
            &&& has_zero(done.terms) ==> has_zero(flat.terms)
            &&& forall|k: int| i <= k < terms.len() && (#[trigger] terms[k]) is Zero ==> has_zero(
                flat.terms,
            )
        },
    decreases terms.len() - i,
{
    if i < terms.len() {
        match terms[i] {
            TensorModel::InnerProd { terms: inner_terms, rank_combinations } => {
                let span = fresh_id(rank_combinations);
                let shift = shift_for(next, span);
                if shift + span <= usize::MAX {
                    match rewire(
                        term_sizes(inner_terms),
                        rank_combinations,
                        lifted(
                            rank_combinations,
                            inner_terms.len(),
                            shift,
                            combinations,
                            done.combinations,
                        ),
                        combination_at(combinations, i),
                        0,
                    ) {
                        Err(_) => {},
                        Ok(rows) => {
                            let grown = Flat {
                                terms: done.terms + inner_terms,
                                combinations: done.combinations + rows,
                            };
                            if has_zero(done.terms) {
                                let z = choose|z: int|
                                    0 <= z < done.terms.len() && (#[trigger] done.terms[z]) is Zero;
                                assert(grown.terms[z] is Zero);
                            }
                            lemma_flatten_keeps_zero(terms, combinations, i + 1, shift + span, grown);
                        },
                    }
                }
            },
            other => {
                let grown = Flat {
                    terms: done.terms.push(other),
                    combinations: done.combinations.push(combination_at(combinations, i)),
                };
                if has_zero(done.terms) {
                    let z = choose|z: int|
                        0 <= z < done.terms.len() && (#[trigger] done.terms[z]) is Zero;
                    assert(grown.terms[z] is Zero);
                }
                if other is Zero {
                    assert(grown.terms[done.terms.len() as int] is Zero);
                }
                lemma_flatten_keeps_zero(terms, combinations, i + 1, next, grown);
            },
        }
    }
}

/// A contraction of several terms, one of which is the zero tensor, is the
/// zero tensor, whatever the rank combinations, one for each term: where no
/// term is a contraction itself it is the zero tensor, and where one is, the
/// only other outcome is the error of a nested contraction that cannot be
/// absorbed.
pub proof fn law_zero_term(
    terms: Seq<TensorModel>,
    combinations: Seq<Seq<(usize, usize)>>,
    i: int,
)
    requires
        0 <= i < terms.len(),
        terms[i] is Zero,
    ensures
        contraction(terms, combinations) matches Ok(node) ==> node == TensorModel::Zero,
        terms.len() == combinations.len() && no_contraction(terms) && fresh_id(combinations)
            <= usize::MAX ==> contraction(terms, combinations) == Ok::<TensorModel, AlgebraError>(
            TensorModel::Zero,
        ),
{
    let start = Flat { terms: Seq::<TensorModel>::empty(), combinations: Seq::empty() };
    lemma_flatten_keeps_zero(terms, combinations, 0, fresh_id(combinations), start);
    if terms.len() == combinations.len() && no_contraction(terms) {
        lemma_flatten_flat(terms, combinations, 0, fresh_id(combinations), start);
    }
}

} // verus!
