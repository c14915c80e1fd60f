//! Folding a contraction of numeric terms and Kronecker deltas into one
//! numeric tensor, with the operations of the provider.
//!
//! The provider contracts two tensors of one rank over one pair of axes,
//! the other axes having one element where the two meet; it moves an axis
//! to a higher one of one element; and it forms the outer product of two
//! tensors that do not meet.  Every term is first given the axes of the
//! widest, then the terms are joined one after the other, and an axis that
//! is contracted with the Kronecker deltas is moved to the axis that the
//! deltas tie it to.

use crate::constant_value::tensor_dimensions;
use crate::contraction::fusion_of;
use crate::contraction::is_contractible;
use crate::contraction::Flat;
use crate::contraction::Fusion;
use crate::contraction::Gathered;
use crate::expression::combinations_view;
use crate::expression::copy_pairs;
use crate::expression::terms_view;
use crate::expression::TensorExpression;
use crate::expression::TensorModel;
use crate::provider::apart_axes;
use crate::provider::contractible;
use crate::provider::free_at;
use crate::provider::tensor_contraction;
use crate::provider::tensor_copy;
use crate::provider::tensor_delta_product;
use crate::provider::tensor_direct;
use crate::provider::tensor_direct_product;
use crate::provider::tensor_dot;
use crate::provider::tensor_mul_delta;
use crate::provider::tensor_neg;
use crate::provider::tensor_negation;
use crate::expression::RankCombination;
use crate::provider::tensor_bare;
use crate::provider::tensor_is_bare;
use crate::provider::tensor_one;
use crate::provider::tensor_sound;
use crate::provider::unit_shape;
use crate::provider::tensor_rank;
use crate::provider::tensor_shape;
use crate::provider::unit_tensor;
use crate::provider::TensorValue;
use crate::shape::combination_at;
use crate::shape::delta_rank;
use crate::shape::delta_shape;
use vstd::prelude::*;

verus! {

/// The first entry from `j` on that has the identifier; the length of the
/// combination where none has.
pub open spec fn entry_with(combination: Seq<(usize, usize)>, id: usize, j: int) -> int
    decreases combination.len() - j,
{
    if j < 0 || j >= combination.len() {
        combination.len() as int
    } else if combination[j].1 == id {
        j
    } else {
        entry_with(combination, id, j + 1)
    }
}

/// The first entry of `a` from `j` on whose identifier `b` has too, with
/// the first entry of `b` that has it.
pub open spec fn link_from(a: Seq<(usize, usize)>, b: Seq<(usize, usize)>, j: int) -> Option<
    (int, int),
>
    decreases a.len() - j,
{
    if j < 0 || j >= a.len() {
        None
    } else {
        let q = entry_with(b, a[j].1, 0);
        if q < b.len() {
            Some((j, q))
        } else {
            link_from(a, b, j + 1)
        }
    }
}

/// A numeric tensor with the contractions that are still open on it.
pub struct Folding {
    pub value: TensorValue,
    pub open: Seq<(usize, usize)>,
}

/// A numeric tensor brought to `rank` axes: the provider's direct product of
/// the unit tensor of that rank with the tensor, which keeps every stored
/// cell at its index and adds axes of one element behind the tensor's own.
pub open spec fn padded(t: TensorValue, rank: nat) -> TensorValue {
    if tensor_shape(t).len() < rank {
        tensor_direct_product(unit_tensor(rank), t)
    } else {
        t
    }
}

/// The outer product of two numeric tensors with as many axes, of which
/// along each axis one has one element: the provider's direct product,
/// which starts from the stored cells of its first operand.  So the first
/// operand is the tensor that stores a cell, the left one where both do;
/// with the other one storing none the product stores none, which is
/// zero.  There is none where neither stores a cell, where the tensors
/// have no axis, or where both have more than one element along an axis.
pub open spec fn outer_product(l: TensorValue, r: TensorValue) -> Option<TensorValue> {
    if tensor_shape(l).len() >= 1 && tensor_shape(l).len() == tensor_shape(r).len()
        && apart_axes(tensor_shape(l), tensor_shape(r)) {
        if !tensor_bare(l) {
            Some(tensor_direct_product(l, r))
        } else if !tensor_bare(r) {
            Some(tensor_direct_product(r, l))
        } else {
            None
        }
    } else {
        None
    }
}

/// The rank that the first pair from `k` on that names `rank` ties it to.  A
/// pair of a rank with itself ties nothing.
pub open spec fn other_end(pairs: Seq<(usize, usize)>, rank: usize, k: int) -> Option<usize>
    decreases pairs.len() - k,
{
    if k < 0 || k >= pairs.len() {
        None
    } else if pairs[k].0 == pairs[k].1 {
        other_end(pairs, rank, k + 1)
    } else if pairs[k].0 == rank {
        Some(pairs[k].1)
    } else if pairs[k].1 == rank {
        Some(pairs[k].0)
    } else {
        other_end(pairs, rank, k + 1)
    }
}

/// The tensor with every axis from entry `j` on that is contracted with
/// the Kronecker deltas moved to the axis that the deltas tie it to, which
/// must be a higher one of one element.  The other contractions stay open.
pub open spec fn moved_from(
    f: Folding,
    links: Seq<(usize, usize)>,
    pairs: Seq<(usize, usize)>,
    j: int,
) -> Option<Folding>
    decreases f.open.len() - j,
{
    if j < 0 || j >= f.open.len() {
        Some(f)
    } else {
        let entry = f.open[j];
        let q = entry_with(links, entry.1, 0);
        if q >= links.len() {
            moved_from(f, links, pairs, j + 1)
        } else {
            match other_end(pairs, links[q].0, 0) {
                None => None,
                Some(target) => {
                    let shape = tensor_shape(f.value);
                    if entry.0 < target && target < shape.len() && shape[target as int] == 1 {
                        match tensor_delta_product(f.value, entry.0, target) {
                            None => None,
                            Some(v) => moved_from(
                                Folding { value: v, open: f.open.remove(j) },
                                links,
                                pairs,
                                j,
                            ),
                        }
                    } else {
                        None
                    }
                },
            }
        }
    }
}

/// The contraction of `a` and `b` after the contracted axis `from` of one
/// of them (of `a` where `left` holds) is moved to the axis `to`; `other`
/// is the contracted axis of the other one.
pub open spec fn raised(
    a: TensorValue,
    b: TensorValue,
    from: usize,
    to: int,
    other: usize,
    left: bool,
) -> Option<TensorValue> {
    let m = if left {
        a
    } else {
        b
    };
    let shape = tensor_shape(m);
    if from < to && to < shape.len() && to <= usize::MAX && shape[to] == 1 {
        match tensor_delta_product(m, from, to as usize) {
            None => None,
            Some(v) => if left {
                if contractible(tensor_shape(v), tensor_shape(b), to as usize, other) {
                    Some(tensor_contraction(v, b, to as usize, other))
                } else {
                    None
                }
            } else {
                if contractible(tensor_shape(a), tensor_shape(v), other, to as usize) {
                    Some(tensor_contraction(a, v, other, to as usize))
                } else {
                    None
                }
            },
        }
    } else {
        None
    }
}

/// The first contraction that the provider handles after the contracted
/// axis is moved to an axis from `p` on.
pub open spec fn raise_from(
    a: TensorValue,
    b: TensorValue,
    from: usize,
    other: usize,
    left: bool,
    p: int,
) -> Option<TensorValue>
    decreases tensor_shape(
        if left {
            a
        } else {
            b
        },
    ).len() - p,
{
    let m = if left {
        a
    } else {
        b
    };
    if p < 0 || p >= tensor_shape(m).len() {
        None
    } else {
        match raised(a, b, from, p, other, left) {
            Some(v) => Some(v),
            None => raise_from(a, b, from, other, left, p + 1),
        }
    }
}

/// The contraction of two numeric tensors over the axes `la` and `rb`: as
/// they stand where the provider handles that, else with the contracted
/// axis of the first moved up, else with that of the second moved up.
pub open spec fn joined(a: TensorValue, b: TensorValue, la: usize, rb: usize) -> Option<
    TensorValue,
> {
    if contractible(tensor_shape(a), tensor_shape(b), la, rb) {
        Some(tensor_contraction(a, b, la, rb))
    } else {
        match raise_from(a, b, la, rb, true, la + 1) {
            Some(v) => Some(v),
            None => raise_from(a, b, rb, la, false, rb + 1),
        }
    }
}

/// The numeric terms from `i` on joined to what was folded before, one
/// after the other.  A term that shares an identifier with what is open is
/// contracted over it; any other term is multiplied on as an outer product,
/// once the axes that are contracted with the Kronecker deltas are moved
/// away on both sides.
pub open spec fn numeric_from(
    rest: Flat,
    i: int,
    done: Folding,
    links: Seq<(usize, usize)>,
    pairs: Seq<(usize, usize)>,
    rank: nat,
) -> Option<Folding>
    decreases rest.terms.len() - i,
{
    if i < 0 || i >= rest.terms.len() {
        Some(done)
    } else {
        match rest.terms[i] {
            TensorModel::Constant(t) => {
                let value = padded(t, rank);
                let row = combination_at(rest.combinations, i);
                match link_from(done.open, row, 0) {
                    Some((ja, jb)) => match joined(done.value, value, done.open[ja].0, row[jb].0) {
                        None => None,
                        Some(v) => numeric_from(
                            rest,
                            i + 1,
                            Folding { value: v, open: done.open.remove(ja) + row.remove(jb) },
                            links,
                            pairs,
                            rank,
                        ),
                    },
                    None => match (
                        moved_from(done, links, pairs, 0),
                        moved_from(Folding { value, open: row }, links, pairs, 0),
                    ) {
                        (Some(l), Some(r)) => match outer_product(l.value, r.value) {
                            Some(v) => numeric_from(
                                rest,
                                i + 1,
                                Folding { value: v, open: l.open + r.open },
                                links,
                                pairs,
                                rank,
                            ),
                            None => None,
                        },
                        _ => None,
                    },
                }
            },
            _ => None,
        }
    }
}

/// The largest rank among the numeric terms from `i` on, and `best`.
pub open spec fn widest(terms: Seq<TensorModel>, i: int, best: nat) -> nat
    decreases terms.len() - i,
{
    if i < 0 || i >= terms.len() {
        best
    } else {
        match terms[i] {
            TensorModel::Constant(t) => widest(
                terms,
                i + 1,
                if tensor_shape(t).len() > best {
                    tensor_shape(t).len()
                } else {
                    best
                },
            ),
            _ => widest(terms, i + 1, best),
        }
    }
}

/// Whether an entry from `j` on contracts the rank.
pub open spec fn linked_rank(links: Seq<(usize, usize)>, rank: usize, j: int) -> bool
    decreases links.len() - j,
{
    if j < 0 || j >= links.len() {
        false
    } else {
        links[j].0 == rank || linked_rank(links, rank, j + 1)
    }
}

/// Whether every pair from `k` on that ties two ranks has one of them
/// contracted.
pub open spec fn pairs_linked(
    pairs: Seq<(usize, usize)>,
    links: Seq<(usize, usize)>,
    k: int,
) -> bool
    decreases pairs.len() - k,
{
    if k < 0 || k >= pairs.len() {
        true
    } else {
        (pairs[k].0 == pairs[k].1 || linked_rank(links, pairs[k].0, 0) || linked_rank(
            links,
            pairs[k].1,
            0,
        )) && pairs_linked(pairs, links, k + 1)
    }
}

/// The numeric tensor that numeric terms fold to under the Kronecker
/// deltas with the pairs `pairs` and the contractions `links`.  None where
/// a term is not numeric, where a pair of the deltas is contracted with
/// nothing, where a contraction stays open, or where the provider does not
/// handle a shape.
pub open spec fn folded_sorted(
    numeric: Flat,
    links: Seq<(usize, usize)>,
    pairs: Seq<(usize, usize)>,
) -> Option<TensorValue> {
    if numeric.terms.len() == 0 || !(numeric.terms[0] is Constant) || !pairs_linked(
        pairs,
        links,
        0,
    ) {
        None
    } else {
        let rank = widest(numeric.terms, 0, delta_rank(pairs));
        match numeric_from(
            numeric,
            1,
            Folding {
                value: padded(numeric.terms[0]->Constant_0, rank),
                open: combination_at(numeric.combinations, 0),
            },
            links,
            pairs,
            rank,
        ) {
            None => None,
            Some(f) => match moved_from(f, links, pairs, 0) {
                None => None,
                Some(g) => if g.open.len() == 0 {
                    Some(g.value)
                } else {
                    None
                },
            },
        }
    }
}

/// The terms of a contraction sorted for folding: the Kronecker deltas,
/// whether an odd number of them stands under a negation, and the numeric
/// terms.
pub struct Sorting {
    pub pairs: Seq<(usize, usize)>,
    pub links: Seq<(usize, usize)>,
    pub negative: bool,
    pub numeric: Flat,
}

/// The terms from `i` on sorted behind what was sorted before.  A numeric
/// term is kept; negated Kronecker deltas count as Kronecker deltas and
/// turn the sign; any other term cannot be folded.
pub open spec fn sorted_from(rest: Flat, i: int, done: Sorting) -> Option<Sorting>
    decreases rest.terms.len() - i,
{
    if i < 0 || i >= rest.terms.len() {
        Some(done)
    } else {
        let row = combination_at(rest.combinations, i);
        match rest.terms[i] {
            TensorModel::Constant(_) => sorted_from(
                rest,
                i + 1,
                Sorting {
                    pairs: done.pairs,
                    links: done.links,
                    negative: done.negative,
                    numeric: Flat {
                        terms: done.numeric.terms.push(rest.terms[i]),
                        combinations: done.numeric.combinations.push(row),
                    },
                },
            ),
            TensorModel::Neg(v) => match *v {
                TensorModel::KroneckerDeltas(more) => sorted_from(
                    rest,
                    i + 1,
                    Sorting {
                        pairs: done.pairs + more,
                        links: done.links + row,
                        negative: !done.negative,
                        numeric: done.numeric,
                    },
                ),
                _ => None,
            },
            _ => None,
        }
    }
}

/// The numeric tensor that a contraction of numeric terms and Kronecker
/// deltas folds to, negated where an odd number of the deltas stands under
/// a negation.
pub open spec fn folded_of(fusion: Fusion) -> Option<TensorValue> {
    match sorted_from(
        fusion.rest,
        0,
        Sorting {
            pairs: fusion.pairs,
            links: fusion.combination,
            negative: false,
            numeric: Flat { terms: Seq::empty(), combinations: Seq::empty() },
        },
    ) {
        None => None,
        Some(s) => match folded_sorted(s.numeric, s.links, s.pairs) {
            None => None,
            Some(v) => if s.negative {
                Some(tensor_negation(v))
            } else {
                Some(v)
            },
        },
    }
}

fn find_entry(combination: &Vec<(usize, usize)>, id: usize) -> (r: usize)
    ensures
        r == entry_with(combination@, id, 0),
        r <= combination.len(),
{
    let mut j: usize = 0;
    while j < combination.len()
        invariant
            j <= combination.len(),
            entry_with(combination@, id, 0) == entry_with(combination@, id, j as int),
        decreases combination.len() - j,
    {
        if combination[j].1 == id {
            return j;
        }
        j += 1;
    }
    combination.len()
}

fn find_link(a: &Vec<(usize, usize)>, b: &Vec<(usize, usize)>) -> (r: Option<(usize, usize)>)
    ensures
        match r {
            Some(p) => link_from(a@, b@, 0) == Some((p.0 as int, p.1 as int)) && p.0 < a.len()
                && p.1 < b.len(),
            None => link_from(a@, b@, 0) is None,
        },
{
    let mut j: usize = 0;
    while j < a.len()
        invariant
            j <= a.len(),
            link_from(a@, b@, 0) == link_from(a@, b@, j as int),
        decreases a.len() - j,
    {
        let q = find_entry(b, a[j].1);
        if q < b.len() {
            return Some((j, q));
        }
        j += 1;
    }
    None
}

fn find_other_end(pairs: &Vec<(usize, usize)>, rank: usize) -> (r: Option<usize>)
    ensures
        r == other_end(pairs@, rank, 0),
{
    let mut k: usize = 0;
    while k < pairs.len()
        invariant
            k <= pairs.len(),
            other_end(pairs@, rank, 0) == other_end(pairs@, rank, k as int),
        decreases pairs.len() - k,
    {
        if pairs[k].0 != pairs[k].1 {
            if pairs[k].0 == rank {
                return Some(pairs[k].1);
            }
            if pairs[k].1 == rank {
                return Some(pairs[k].0);
            }
        }
        k += 1;
    }
    None
}

fn is_linked_rank(links: &Vec<(usize, usize)>, rank: usize) -> (r: bool)
    ensures
        r == linked_rank(links@, rank, 0),
{
    let mut j: usize = 0;
    while j < links.len()
        invariant
            j <= links.len(),
            linked_rank(links@, rank, 0) == linked_rank(links@, rank, j as int),
        decreases links.len() - j,
    {
        if links[j].0 == rank {
            return true;
        }
        j += 1;
    }
    false
}

fn are_pairs_linked(pairs: &Vec<(usize, usize)>, links: &Vec<(usize, usize)>) -> (r: bool)
    ensures
        r == pairs_linked(pairs@, links@, 0),
{
    let mut k: usize = 0;
    while k < pairs.len()
        invariant
            k <= pairs.len(),
            pairs_linked(pairs@, links@, 0) == pairs_linked(pairs@, links@, k as int),
        decreases pairs.len() - k,
    {
        if pairs[k].0 != pairs[k].1 && !(is_linked_rank(links, pairs[k].0) || is_linked_rank(
            links,
            pairs[k].1,
        )) {
            return false;
        }
        k += 1;
    }
    true
}

fn is_apart(a: &Vec<usize>, b: &Vec<usize>) -> (r: bool)
    ensures
        r == apart_axes(a@, b@),
{
    if a.len() > b.len() {
        return false;
    }
    let mut j: usize = 0;
    while j < a.len()
        invariant
            j <= a.len(),
            a.len() <= b.len(),
            forall|q: int| 0 <= q < j ==> #[trigger] free_at(a@, b@, q),
        decreases a.len() - j,
    {
        if a[j] != 1 && b[j] != 1 {
            proof {
                assert(!free_at(a@, b@, j as int));
            }
            return false;
        }
        j += 1;
    }
    true
}

/// The unit tensor of `rank` axes.
fn unit_of(rank: usize) -> (r: TensorValue)
    ensures
        r == unit_tensor(rank as nat),
        tensor_shape(r) == unit_shape(rank as nat),
        !tensor_bare(r),
        tensor_sound(r),
{
    let mut sizes: Vec<usize> = Vec::new();
    let mut index: Vec<usize> = Vec::new();
    let mut j: usize = 0;
    while j < rank
        invariant
            j <= rank,
            sizes@ == unit_shape(j as nat),
            index@ == Seq::new(j as nat, |q: int| 0usize),
        decreases rank - j,
    {
        sizes.push(1);
        index.push(0);
        j += 1;
        proof {
            assert(sizes@ =~= unit_shape(j as nat));
            assert(index@ =~= Seq::new(j as nat, |q: int| 0usize));
        }
    }
    tensor_one(&sizes, &index)
}

fn pad(t: &TensorValue, rank: usize) -> (r: TensorValue)
    requires
        tensor_sound(*t),
    ensures
        r == padded(*t, rank as nat),
        tensor_sound(r),
{
    if tensor_rank(t) < rank {
        let unit = unit_of(rank);
        proof {
            assert forall|j: int| 0 <= j < tensor_shape(*t).len() implies #[trigger] free_at(
                tensor_shape(*t),
                tensor_shape(unit),
                j,
            ) by {
                assert(tensor_shape(unit)[j] == 1);
            }
        }
        tensor_direct(&unit, t)
    } else {
        tensor_copy(t)
    }
}

fn multiply_apart(l: &TensorValue, r: &TensorValue) -> (out: Option<TensorValue>)
    requires
        tensor_sound(*l),
        tensor_sound(*r),
    ensures
        out == outer_product(*l, *r),
        out matches Some(v) ==> tensor_sound(v),
{
    let dl = tensor_dimensions(l);
    let dr = tensor_dimensions(r);
    if dl.len() < 1 || dl.len() != dr.len() || !is_apart(&dl, &dr) {
        return None;
    }
    proof {
        assert forall|j: int| 0 <= j < dr@.len() implies #[trigger] free_at(dr@, dl@, j) by {
            assert(free_at(dl@, dr@, j));
        }
    }
    if !tensor_is_bare(l) {
        Some(tensor_direct(l, r))
    } else if !tensor_is_bare(r) {
        Some(tensor_direct(r, l))
    } else {
        None
    }
}

fn apply_moves(
    value: TensorValue,
    open: Vec<(usize, usize)>,
    links: &Vec<(usize, usize)>,
    pairs: &Vec<(usize, usize)>,
) -> (r: Option<(TensorValue, Vec<(usize, usize)>)>)
    requires
        tensor_sound(value),
    ensures
        r matches Some(p) ==> tensor_sound(p.0),
        match r {
            Some(p) => moved_from(Folding { value, open: open@ }, links@, pairs@, 0) == Some(
                Folding { value: p.0, open: p.1@ },
            ),
            None => moved_from(Folding { value, open: open@ }, links@, pairs@, 0) is None,
        },
{
    let ghost start = Folding { value, open: open@ };
    let mut current = value;
    let mut left = open;
    let mut j: usize = 0;
    while j < left.len()
        invariant
            j <= left.len(),
            tensor_sound(current),
            start == (Folding { value, open: open@ }),
            moved_from(start, links@, pairs@, 0) == moved_from(
                Folding { value: current, open: left@ },
                links@,
                pairs@,
                j as int,
            ),
        decreases left.len() - j,
    {
        let entry = left[j];
        let q = find_entry(links, entry.1);
        if q >= links.len() {
            j += 1;
        } else {
            match find_other_end(pairs, links[q].0) {
                None => {
                    return None;
                },
                Some(target) => {
                    let shape = tensor_dimensions(&current);
                    if entry.0 < target && target < shape.len() && shape[target] == 1 {
                        match tensor_mul_delta(&current, entry.0, target) {
                            None => {
                                return None;
                            },
                            Some(v) => {
                                current = v;
                                left.remove(j);
                            },
                        }
                    } else {
                        return None;
                    }
                },
            }
        }
    }
    Some((current, left))
}

fn try_raise(
    a: &TensorValue,
    b: &TensorValue,
    from: usize,
    to: usize,
    other: usize,
    left: bool,
) -> (r: Option<TensorValue>)
    requires
        tensor_sound(*a),
        tensor_sound(*b),
    ensures
        r == raised(*a, *b, from, to as int, other, left),
        r matches Some(v) ==> tensor_sound(v),
{
    let m = if left {
        a
    } else {
        b
    };
    let shape = tensor_dimensions(m);
    if from < to && to < shape.len() && shape[to] == 1 {
        match tensor_mul_delta(m, from, to) {
            None => None,
            Some(v) => {
                let moved = tensor_dimensions(&v);
                if left {
                    let db = tensor_dimensions(b);
                    if is_contractible(&moved, &db, to, other) {
                        Some(tensor_dot(&v, b, to, other))
                    } else {
                        None
                    }
                } else {
                    let da = tensor_dimensions(a);
                    if is_contractible(&da, &moved, other, to) {
                        Some(tensor_dot(a, &v, other, to))
                    } else {
                        None
                    }
                }
            },
        }
    } else {
        None
    }
}

fn raise(a: &TensorValue, b: &TensorValue, from: usize, other: usize, left: bool) -> (r: Option<
    TensorValue,
>)
    requires
        tensor_sound(*a),
        tensor_sound(*b),
    ensures
        r == raise_from(*a, *b, from, other, left, from + 1),
        r matches Some(v) ==> tensor_sound(v),
{
    let m = if left {
        a
    } else {
        b
    };
    let rank = tensor_rank(m);
    if from >= rank {
        return None;
    }
    let mut p: usize = from + 1;
    while p < rank
        invariant
            from < p <= rank,
            tensor_sound(*a),
            tensor_sound(*b),
            rank == tensor_shape(
                if left {
                    *a
                } else {
                    *b
                },
            ).len(),
            raise_from(*a, *b, from, other, left, from + 1) == raise_from(
                *a,
                *b,
                from,
                other,
                left,
                p as int,
            ),
        decreases rank - p,
    {
        match try_raise(a, b, from, p, other, left) {
            Some(v) => {
                return Some(v);
            },
            None => {},
        }
        p += 1;
    }
    None
}

fn join(a: &TensorValue, b: &TensorValue, la: usize, rb: usize) -> (r: Option<TensorValue>)
    requires
        tensor_sound(*a),
        tensor_sound(*b),
    ensures
        r == joined(*a, *b, la, rb),
        r matches Some(v) ==> tensor_sound(v),
{
    let da = tensor_dimensions(a);
    let db = tensor_dimensions(b);
    if is_contractible(&da, &db, la, rb) {
        return Some(tensor_dot(a, b, la, rb));
    }
    match raise(a, b, la, rb, true) {
        Some(v) => Some(v),
        None => raise(a, b, rb, la, false),
    }
}

fn widest_rank(terms: &Vec<TensorExpression>, start: usize) -> (r: usize)
    ensures
        r == widest(terms_view(*terms), 0, start as nat),
{
    let mut best = start;
    let mut i: usize = 0;
    while i < terms.len()
        invariant
            i <= terms.len(),
            widest(terms_view(*terms), 0, start as nat) == widest(
                terms_view(*terms),
                i as int,
                best as nat,
            ),
        decreases terms.len() - i,
    {
        proof {
            assert(terms_view(*terms)[i as int] == terms[i as int]@);
        }
        match &terms[i] {
            TensorExpression::Constant(t) => {
                let t = t.value();
                let rank = tensor_rank(t);
                if rank > best {
                    best = rank;
                }
            },
            _ => {},
        }
        i += 1;
    }
    best
}

fn append(mut first: Vec<(usize, usize)>, second: &Vec<(usize, usize)>) -> (r: Vec<(usize, usize)>)
    ensures
        r@ == first@ + second@,
{
    let ghost head = first@;
    let mut k: usize = 0;
    while k < second.len()
        invariant
            k <= second.len(),
            first@ == head + second@.subrange(0, k as int),
        decreases second.len() - k,
    {
        first.push(second[k]);
        proof {
            assert(first@ =~= head + second@.subrange(0, k + 1));
        }
        k += 1;
    }
    proof {
        assert(second@.subrange(0, second.len() as int) =~= second@);
    }
    first
}

/// What the terms were sorted into.
pub struct Sorted {
    pub pairs: Vec<(usize, usize)>,
    pub links: Vec<(usize, usize)>,
    pub negative: bool,
    pub terms: Vec<TensorExpression>,
    pub rows: Vec<RankCombination>,
}

/// What the terms were sorted into, as a model.
pub open spec fn sorting_of(s: Sorted) -> Sorting {
    Sorting {
        pairs: s.pairs@,
        links: s.links@,
        negative: s.negative,
        numeric: Flat { terms: terms_view(s.terms), combinations: combinations_view(s.rows) },
    }
}

fn sort(g: &Gathered) -> (r: Option<Sorted>)
    requires
        g.terms.len() == g.rows.len(),
    ensures
        match r {
            Some(s) => sorted_from(
                fusion_of(*g).rest,
                0,
                Sorting {
                    pairs: g.pairs@,
                    links: g.links@,
                    negative: false,
                    numeric: Flat { terms: Seq::empty(), combinations: Seq::empty() },
                },
            ) == Some(sorting_of(s)) && s.terms.len() == s.rows.len(),
            None => sorted_from(
                fusion_of(*g).rest,
                0,
                Sorting {
                    pairs: g.pairs@,
                    links: g.links@,
                    negative: false,
                    numeric: Flat { terms: Seq::empty(), combinations: Seq::empty() },
                },
            ) is None,
        },
{
    let ghost rest = Flat { terms: terms_view(g.terms), combinations: combinations_view(g.rows) };
    let ghost start = Sorting {
        pairs: g.pairs@,
        links: g.links@,
        negative: false,
        numeric: Flat { terms: Seq::empty(), combinations: Seq::empty() },
    };
    let mut pairs = copy_pairs(&g.pairs);
    let mut links = copy_pairs(&g.links);
    let mut negative = false;
    let mut terms: Vec<TensorExpression> = Vec::new();
    let mut rows: Vec<RankCombination> = Vec::new();
    proof {
        assert(terms_view(terms) =~= Seq::<TensorModel>::empty());
        assert(combinations_view(rows) =~= Seq::<Seq<(usize, usize)>>::empty());
    }
    let mut i: usize = 0;
    while i < g.terms.len()
        invariant
            i <= g.terms.len(),
            g.terms.len() == g.rows.len(),
            terms.len() == rows.len(),
            rest == (Flat { terms: terms_view(g.terms), combinations: combinations_view(g.rows) }),
            start == (Sorting {
                pairs: g.pairs@,
                links: g.links@,
                negative: false,
                numeric: Flat { terms: Seq::empty(), combinations: Seq::empty() },
            }),
            sorted_from(rest, 0, start) == sorted_from(
                rest,
                i as int,
                Sorting {
                    pairs: pairs@,
                    links: links@,
                    negative,
                    numeric: Flat {
                        terms: terms_view(terms),
                        combinations: combinations_view(rows),
                    },
                },
            ),
        decreases g.terms.len() - i,
    {
        proof {
            assert(rest.terms[i as int] == g.terms[i as int]@);
            assert(combination_at(rest.combinations, i as int) == g.rows[i as int]@);
        }
        let ghost old_terms = terms_view(terms);
        let ghost old_rows = combinations_view(rows);
        match &g.terms[i] {
            TensorExpression::Constant(t) => {
                terms.push(TensorExpression::Constant(t.duplicate()));
                rows.push(copy_pairs(&g.rows[i]));
                proof {
                    assert(terms_view(terms) =~= old_terms.push(rest.terms[i as int]));
                    assert(combinations_view(rows) =~= old_rows.push(g.rows[i as int]@));
                }
            },
            TensorExpression::Neg(v) => {
                proof {
                    assert(g.terms[i as int]@ == TensorModel::Neg(Box::new(v@)));
                }
                match &**v {
                    TensorExpression::KroneckerDeltas(more) => {
                        pairs = append(pairs, more);
                        links = append(links, &g.rows[i]);
                        negative = !negative;
                    },
                    _ => {
                        return None;
                    },
                }
            },
            _ => {
                return None;
            },
        }
        i += 1;
    }
    Some(Sorted { pairs, links, negative, terms, rows })
}

/// The numeric tensor that the gathered terms fold to.
pub fn fold_numeric(g: &Gathered) -> (r: Option<TensorValue>)
    requires
        g.terms.len() == g.rows.len(),
    ensures
        r == folded_of(fusion_of(*g)),
        r matches Some(v) ==> tensor_sound(v),
{
    match sort(g) {
        None => None,
        Some(s) => match fold_sorted(&s) {
            None => None,
            Some(v) => {
                if s.negative {
                    Some(tensor_neg(&v))
                } else {
                    Some(v)
                }
            },
        },
    }
}

/// The numeric tensor that sorted terms fold to.
fn fold_sorted(g: &Sorted) -> (r: Option<TensorValue>)
    requires
        g.terms.len() == g.rows.len(),
    ensures
        r == folded_sorted(sorting_of(*g).numeric, g.links@, g.pairs@),
        r matches Some(v) ==> tensor_sound(v),
{
    if g.terms.len() == 0 {
        return None;
    }
    let ghost rest = Flat { terms: terms_view(g.terms), combinations: combinations_view(g.rows) };
    proof {
        assert(rest.terms[0] == g.terms[0]@);
        assert(combination_at(rest.combinations, 0) == g.rows[0]@);
    }
    let first = match &g.terms[0] {
        TensorExpression::Constant(t) => t.value(),
        _ => {
            return None;
        },
    };
    if !are_pairs_linked(&g.pairs, &g.links) {
        return None;
    }
    let rank = widest_rank(&g.terms, delta_shape(&g.pairs).len());
    let mut value = pad(first, rank);
    let mut open = copy_pairs(&g.rows[0]);
    let ghost start = Folding { value, open: open@ };
    let mut i: usize = 1;
    while i < g.terms.len()
        invariant
            1 <= i <= g.terms.len(),
            g.terms.len() == g.rows.len(),
            tensor_sound(value),
            rest == (Flat { terms: terms_view(g.terms), combinations: combinations_view(g.rows) }),
            rest.terms[0] is Constant,
            pairs_linked(g.pairs@, g.links@, 0),
            rank as nat == widest(rest.terms, 0, delta_rank(g.pairs@)),
            start == (Folding {
                value: padded(rest.terms[0]->Constant_0, rank as nat),
                open: combination_at(rest.combinations, 0),
            }),
            numeric_from(rest, 1, start, g.links@, g.pairs@, rank as nat) == numeric_from(
                rest,
                i as int,
                Folding { value, open: open@ },
                g.links@,
                g.pairs@,
                rank as nat,
            ),
        decreases g.terms.len() - i,
    {
        proof {
            assert(rest.terms[i as int] == g.terms[i as int]@);
            assert(combination_at(rest.combinations, i as int) == g.rows[i as int]@);
        }
        match &g.terms[i] {
            TensorExpression::Constant(t) => {
                let t = t.value();
                let next = pad(t, rank);
                let row = &g.rows[i];
                match find_link(&open, row) {
                    Some((ja, jb)) => {
                        match join(&value, &next, open[ja].0, row[jb].0) {
                            None => {
                                return None;
                            },
                            Some(v) => {
                                value = v;
                                open.remove(ja);
                                let mut more = copy_pairs(row);
                                more.remove(jb);
                                open = append(open, &more);
                            },
                        }
                    },
                    None => {
                        let left = match apply_moves(value, open, &g.links, &g.pairs) {
                            None => {
                                return None;
                            },
                            Some(left) => left,
                        };
                        let right = match apply_moves(next, copy_pairs(row), &g.links, &g.pairs) {
                            None => {
                                return None;
                            },
                            Some(right) => right,
                        };
                        match multiply_apart(&left.0, &right.0) {
                            None => {
                                return None;
                            },
                            Some(v) => {
                                value = v;
                            },
                        }
                        open = append(left.1, &right.1);
                    },
                }
            },
            _ => {
                return None;
            },
        }
        i += 1;
    }
    match apply_moves(value, open, &g.links, &g.pairs) {
        None => None,
        Some(last) => {
            if last.1.len() == 0 {
                Some(last.0)
            } else {
                None
            }
        },
    }
}

} // verus!
