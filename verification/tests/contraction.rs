use opensrdk_linear_algebra::sparse::SparseTensor;
use opensrdk_linear_algebra::Matrix;
use opensrdk_linear_algebra::Tensor;
use opensrdk_symbolic_computation::NumericTensor;
use opensrdk_symbolic_computation::NumericMatrix;
use opensrdk_symbolic_computation::contract_terms;
use opensrdk_symbolic_computation::mul_scalar;
use opensrdk_symbolic_computation::new_symbol;
use opensrdk_symbolic_computation::new_variable_tensor;
use opensrdk_symbolic_computation::AlgebraError;
use opensrdk_symbolic_computation::ConstantValue;
use opensrdk_symbolic_computation::Expression;
use opensrdk_symbolic_computation::InnerProd;
use opensrdk_symbolic_computation::MatrixExpression;
use opensrdk_symbolic_computation::MatrixValue;
use opensrdk_symbolic_computation::Scalar;
use opensrdk_symbolic_computation::Size;
use opensrdk_symbolic_computation::TensorExpression;
use opensrdk_symbolic_computation::TensorValue;
use std::collections::HashMap;

fn numeric_tensor(cells: SparseTensor) -> NumericTensor {
    NumericTensor::new(TensorValue { cells }).unwrap()
}

fn numeric_matrix(cells: Matrix) -> NumericMatrix {
    NumericMatrix::new(MatrixValue { cells }).unwrap()
}

fn square(name: &str) -> TensorExpression {
    TensorExpression::Symbol(name.to_string(), vec![Size::Many, Size::Many])
}

fn constant(v: f64) -> Expression {
    let cell = MatrixValue { cells: Matrix::from(1, vec![v]).unwrap() };
    Expression::from(ConstantValue::Scalar(Scalar::new(cell).unwrap()))
}

fn tensor(sizes: &[usize], cells: &[(&[usize], f64)]) -> NumericTensor {
    let mut t = SparseTensor::new(sizes.to_vec());
    for (index, v) in cells.iter() {
        t[*index] = *v;
    }
    numeric_tensor(t)
}

fn flat(terms: Vec<TensorExpression>, rows: Vec<Vec<(usize, usize)>>) -> TensorExpression {
    TensorExpression::InnerProd { terms, rank_combinations: rows }
}

#[test]
fn zero_absorbs_a_contraction() {
    let a = square("a");
    assert_eq!(
        a.duplicate().inner_prod(TensorExpression::Zero, &[[1, 0]]).unwrap(),
        TensorExpression::Zero
    );
    assert_eq!(
        TensorExpression::Zero.inner_prod(a.duplicate(), &[]).unwrap(),
        TensorExpression::Zero
    );
    assert_eq!(
        TensorExpression::Zero.inner_prod(a.duplicate(), &[[7, 9], [0, 0]]).unwrap(),
        TensorExpression::Zero
    );
    let terms = vec![a.duplicate(), square("b"), TensorExpression::Zero];
    let rows = vec![vec![(1, 0)], vec![(0, 0)], vec![]];
    assert_eq!(contract_terms(&terms, &rows).unwrap(), TensorExpression::Zero);
    assert_eq!(terms.inner_prod(&rows).unwrap(), TensorExpression::Zero);
    let nested = flat(vec![a, TensorExpression::Zero], vec![vec![], vec![]]);
    let outer = vec![nested, square("c")];
    assert_eq!(
        contract_terms(&outer, &vec![vec![], vec![(0, 0)]]).unwrap(),
        TensorExpression::Zero
    );
}

#[test]
fn flattening_is_the_contraction_of_all_terms() {
    let inner = square("a").inner_prod(square("b"), &[[1, 0]]).unwrap();
    assert_eq!(
        inner,
        flat(vec![square("a"), square("b")], vec![vec![(1, 0)], vec![(0, 0)]])
    );
    let nested = inner.inner_prod(square("c"), &[[1, 0]]).unwrap();
    let rows = vec![vec![(1, 1)], vec![(0, 1), (1, 0)], vec![(0, 0)]];
    let expected = flat(vec![square("a"), square("b"), square("c")], rows.clone());
    assert_eq!(nested, expected);
    let direct = vec![square("a"), square("b"), square("c")].inner_prod(&rows).unwrap();
    assert_eq!(direct, nested);
    match &nested {
        TensorExpression::InnerProd { terms, rank_combinations } => {
            for t in terms.iter() {
                assert!(!matches!(t, TensorExpression::InnerProd { .. }));
            }
            for row in rank_combinations.iter() {
                for (i, p) in row.iter().enumerate() {
                    for q in row.iter().skip(i + 1) {
                        assert_ne!(p.0, q.0);
                    }
                }
            }
        }
        other => panic!("unexpected {:?}", other),
    }
}

#[test]
fn flattening_keeps_the_identifiers_that_do_not_collide() {
    let inner = flat(vec![square("a"), square("b")], vec![vec![(1, 5)], vec![(0, 5)]]);
    let nested = contract_terms(
        &vec![inner, square("c")],
        &vec![vec![(1, 0)], vec![(0, 0)]],
    )
    .unwrap();
    let union = vec![vec![(1, 5)], vec![(0, 5), (1, 0)], vec![(0, 0)]];
    let direct = contract_terms(&vec![square("a"), square("b"), square("c")], &union).unwrap();
    assert_eq!(nested, direct);
    assert_eq!(nested, flat(vec![square("a"), square("b"), square("c")], union));
    let kept = flat(vec![square("a"), square("b")], vec![vec![(1, 0)], vec![(0, 0), (1, 7)]]);
    let renamed = contract_terms(
        &vec![kept, square("c")],
        &vec![vec![], vec![(0, 0)]],
    )
    .unwrap();
    assert_eq!(
        renamed,
        flat(
            vec![square("a"), square("b"), square("c")],
            vec![vec![(1, 8)], vec![(0, 8), (1, 7)], vec![(0, 0)]]
        )
    );
}

#[test]
fn numeric_terms_are_folded_one_after_the_other() {
    let row = tensor(&[1, 2], &[(&[0, 0], 1.0), (&[0, 1], 2.0)]);
    let middle = tensor(&[2, 2], &[(&[0, 0], 2.0), (&[0, 1], 0.0), (&[1, 0], 0.0), (&[1, 1], 1.0)]);
    let column = tensor(&[2, 1], &[(&[0, 0], 1.0), (&[1, 0], 2.0)]);
    let terms = vec![
        TensorExpression::Constant(row),
        TensorExpression::Constant(middle),
        TensorExpression::Constant(column),
    ];
    let rows = vec![vec![(1, 0)], vec![(0, 0), (1, 1)], vec![(0, 1)]];
    match contract_terms(&terms, &rows).unwrap() {
        TensorExpression::Constant(c) => {
            assert_eq!(c.value().cells.rank(), 2);
            assert_eq!(c.value().cells.size(0), 1);
            assert_eq!(c.value().cells.size(1), 1);
            assert_eq!(c.value().cells[&[0, 0]], 6.0);
        }
        other => panic!("unexpected {:?}", other),
    }
    let chain = TensorExpression::Constant(tensor(&[1, 2], &[(&[0, 0], 1.0), (&[0, 1], 2.0)]))
        .inner_prod(
            TensorExpression::Constant(tensor(
                &[2, 2],
                &[(&[0, 0], 2.0), (&[0, 1], 0.0), (&[1, 0], 0.0), (&[1, 1], 1.0)],
            )),
            &[[1, 0]],
        )
        .unwrap()
        .inner_prod(
            TensorExpression::Constant(tensor(&[2, 1], &[(&[0, 0], 1.0), (&[1, 0], 2.0)])),
            &[[1, 0]],
        )
        .unwrap();
    match chain {
        TensorExpression::Constant(c) => assert_eq!(c.value().cells[&[0, 0]], 6.0),
        other => panic!("unexpected {:?}", other),
    }
    let alone = contract_terms(
        &vec![TensorExpression::Constant(tensor(&[2], &[(&[0], 3.0), (&[1], 4.0)]))],
        &vec![vec![]],
    )
    .unwrap();
    match alone {
        TensorExpression::Constant(c) => assert_eq!(c.value().cells[&[1]], 4.0),
        other => panic!("unexpected {:?}", other),
    }
}

#[test]
fn kronecker_deltas_are_multiplied_into_numeric_terms() {
    let matrix = tensor(&[2, 2], &[(&[0, 0], 2.0), (&[0, 1], 0.0), (&[1, 0], 0.0), (&[1, 1], 1.0)]);
    let column = tensor(&[2, 1], &[(&[0, 0], 1.0), (&[1, 0], 2.0)]);
    let terms = vec![
        TensorExpression::KroneckerDeltas(vec![(0, 1)]),
        TensorExpression::Constant(matrix),
        TensorExpression::Constant(column),
    ];
    let rows = vec![vec![(0, 1)], vec![(0, 1), (1, 0)], vec![(0, 0)]];
    match contract_terms(&terms, &rows).unwrap() {
        TensorExpression::Constant(c) => {
            assert_eq!(c.value().cells.size(0), 1);
            assert_eq!(c.value().cells.size(1), 2);
            assert_eq!(c.value().cells[&[0, 0]], 2.0);
            assert_eq!(c.value().cells[&[0, 1]], 2.0);
        }
        other => panic!("unexpected {:?}", other),
    }
}

#[test]
fn inverse_of_a_numeric_matrix() {
    let wide = MatrixExpression::Constant(numeric_matrix(Matrix::new(2, 3)));
    assert_eq!(wide.duplicate().inv(), Err(AlgebraError::ShapeMismatch));
    assert_eq!(
        wide.inv_with(Some(numeric_matrix(Matrix::new(2, 3)))),
        Err(AlgebraError::ShapeMismatch)
    );
    let m = numeric_matrix(Matrix::from(2, vec![2.0, 0.0, 0.0, 4.0]).unwrap());
    let inverse = numeric_matrix(Matrix::from(2, vec![0.5, 0.0, 0.0, 0.25]).unwrap());
    let node = MatrixExpression::Constant(m);
    assert_eq!(
        node.duplicate().inv().unwrap(),
        MatrixExpression::Inverse(Box::new(node.duplicate()))
    );
    match node.duplicate().inv_with(Some(inverse)).unwrap() {
        MatrixExpression::Constant(c) => assert_eq!(c.value().cells[(1, 1)], 0.25),
        other => panic!("unexpected {:?}", other),
    }
    assert_eq!(node.duplicate().inv_with(None), Err(AlgebraError::ShapeMismatch));
    assert_eq!(
        node.inv_with(Some(numeric_matrix(Matrix::new(3, 3)))),
        Err(AlgebraError::ShapeMismatch)
    );
    let symbol = MatrixExpression::Mat(Box::new(square("m")));
    assert_eq!(
        symbol.duplicate().inv_with(None).unwrap(),
        MatrixExpression::Inverse(Box::new(symbol))
    );
}

#[test]
fn values_of_the_provider_are_checked() {
    let good = TensorValue { cells: SparseTensor::new(vec![2]) };
    assert!(good.checked().is_some());
    let mut cells = std::collections::HashMap::new();
    cells.insert(vec![5usize], 1.0);
    let (sizes, _) = SparseTensor::<f64>::new(vec![2]).eject();
    assert!(SparseTensor::from(sizes, cells).is_err());
    let mut beyond = SparseTensor::new(vec![2]);
    beyond.elems_mut().insert(vec![5usize], 1.0);
    assert!(TensorValue { cells: beyond.clone() }.checked().is_none());
    assert!(NumericTensor::new(TensorValue { cells: beyond }).is_none());
    let mut short = SparseTensor::new(vec![2, 2]);
    short.elems_mut().insert(vec![1usize], 1.0);
    assert!(NumericTensor::new(TensorValue { cells: short }).is_none());
    let m = MatrixValue { cells: Matrix::from(2, vec![1.0, 2.0, 3.0, 4.0]).unwrap() };
    let checked = m.checked().unwrap();
    assert_eq!(checked.cells[(1, 1)], 4.0);
    assert!(MatrixValue { cells: Matrix::new(0, 3) }.checked().is_none());
    assert!(NumericMatrix::new(MatrixValue { cells: Matrix::new(0, 3) }).is_none());
    let kept = numeric_matrix(Matrix::from(1, vec![7.0, 8.0]).unwrap());
    assert_eq!(kept.value().cells[(0, 1)], 8.0);
}

#[test]
fn a_nested_contraction_on_the_right_is_absorbed() {
    let inner = square("b").inner_prod(square("c"), &[[1, 0]]).unwrap();
    let outer = square("a").inner_prod(inner, &[[1, 0]]).unwrap();
    let rows = vec![vec![(1, 0)], vec![(1, 1), (0, 0)], vec![(0, 1)]];
    assert_eq!(outer, flat(vec![square("a"), square("b"), square("c")], rows));
}

#[test]
fn rewiring_needs_one_claimant() {
    let inner = square("a").inner_prod(square("b"), &[[1, 0]]).unwrap();
    assert_eq!(
        inner.duplicate().inner_prod(square("c"), &[[5, 0]]),
        Err(AlgebraError::AmbiguousContraction)
    );
    let both = flat(vec![square("a"), square("b")], vec![vec![], vec![]]);
    assert_eq!(
        contract_terms(&vec![both, square("c")], &vec![vec![(0, 0)], vec![(0, 0)]]),
        Err(AlgebraError::AmbiguousContraction)
    );
}

#[test]
fn two_claims_of_one_rank_are_a_shape_error() {
    assert_eq!(square("a").inner_prod(square("b"), &[]), Err(AlgebraError::ShapeMismatch));
    assert_eq!(
        contract_terms(&vec![square("a"), square("b")], &vec![vec![(0, 0)], vec![(0, 0)]]),
        Err(AlgebraError::ShapeMismatch)
    );
    assert_eq!(contract_terms(&vec![], &vec![]), Err(AlgebraError::ShapeMismatch));
    assert_eq!(
        contract_terms(&vec![square("a")], &vec![vec![], vec![]]),
        Err(AlgebraError::ShapeMismatch)
    );
}

#[test]
fn a_rank_stands_once_in_a_rank_combination() {
    assert_eq!(
        contract_terms(
            &vec![square("a"), square("b")],
            &vec![vec![(0, 0), (0, 1)], vec![(0, 0), (1, 1)]]
        ),
        Err(AlgebraError::ShapeMismatch)
    );
    assert_eq!(
        square("a").inner_prod(square("b"), &[[1, 0], [1, 1]]),
        Err(AlgebraError::ShapeMismatch)
    );
    let raw = flat(vec![square("a")], vec![vec![(1, 3), (1, 4)]]);
    assert_eq!(
        contract_terms(&vec![raw, square("c")], &vec![vec![], vec![(1, 0)]]),
        Err(AlgebraError::ShapeMismatch)
    );
    let first = TensorExpression::KroneckerDeltas(vec![(0, 2)]);
    let second = TensorExpression::KroneckerDeltas(vec![(0, 3)]);
    assert_eq!(
        contract_terms(
            &vec![first, second, square("a")],
            &vec![vec![(0, 0)], vec![(0, 1)], vec![(0, 0), (1, 1)]]
        ),
        Err(AlgebraError::AmbiguousContraction)
    );
    let built = square("a").inner_prod(square("b"), &[[1, 0]]).unwrap();
    match built {
        TensorExpression::InnerProd { rank_combinations, .. } => {
            for row in rank_combinations.iter() {
                for (i, p) in row.iter().enumerate() {
                    for q in row.iter().skip(i + 1) {
                        assert_ne!(p.0, q.0);
                    }
                }
            }
        }
        other => panic!("unexpected {:?}", other),
    }
}

#[test]
fn identifiers_beyond_the_integers_are_out_of_range() {
    assert_eq!(
        contract_terms(&vec![square("a")], &vec![vec![(0, usize::MAX)]]),
        Err(AlgebraError::IndexOutOfRange)
    );
    let inner = flat(vec![square("a")], vec![vec![(0, usize::MAX - 1)]]);
    assert_eq!(
        contract_terms(&vec![inner, square("b")], &vec![vec![], vec![(0, 0), (1, 1)]]),
        Err(AlgebraError::IndexOutOfRange)
    );
}

#[test]
fn kronecker_deltas_are_fused_and_stand_first() {
    let first = TensorExpression::KroneckerDeltas(vec![(0, 1)]);
    let second = TensorExpression::KroneckerDeltas(vec![(2, 3), (4, 5)]);
    let column = TensorExpression::Symbol("v".to_string(), vec![Size::Many]);
    let terms = vec![first, column.duplicate(), second];
    let rows = vec![vec![(0, 0)], vec![(0, 0)], vec![]];
    let fused = contract_terms(&terms, &rows).unwrap();
    assert_eq!(
        fused,
        flat(
            vec![TensorExpression::KroneckerDeltas(vec![(0, 1), (2, 3), (4, 5)]), column],
            vec![vec![(0, 0)], vec![(0, 0)]]
        )
    );
}

#[test]
fn two_numeric_tensors_are_contracted_by_the_provider() {
    let a = tensor(&[2, 2], &[(&[0, 0], 1.0), (&[0, 1], 2.0), (&[1, 0], 3.0), (&[1, 1], 4.0)]);
    let b = tensor(&[2, 2], &[(&[0, 0], 2.0), (&[0, 1], 4.0), (&[1, 0], 6.0), (&[1, 1], 8.0)]);
    let product = TensorExpression::Constant(a)
        .inner_prod(TensorExpression::Constant(b), &[[1, 0]])
        .unwrap();
    match product {
        TensorExpression::Constant(c) => {
            assert_eq!(c.value().cells[&[0, 0]], 14.0);
            assert_eq!(c.value().cells[&[0, 1]], 20.0);
            assert_eq!(c.value().cells[&[1, 0]], 30.0);
            assert_eq!(c.value().cells[&[1, 1]], 44.0);
        }
        other => panic!("unexpected {:?}", other),
    }
}

#[test]
fn numeric_tensors_of_two_ranks_are_contracted() {
    let a = tensor(&[2], &[(&[0], 1.0), (&[1], 2.0)]);
    let b = tensor(&[2, 2], &[(&[0, 0], 2.0), (&[1, 1], 5.0)]);
    let folded = TensorExpression::Constant(a)
        .inner_prod(TensorExpression::Constant(b), &[[0, 0]])
        .unwrap();
    match folded {
        TensorExpression::Constant(c) => {
            assert_eq!(c.value().cells.size(0), 1);
            assert_eq!(c.value().cells.size(1), 2);
            assert_eq!(c.value().cells[&[0, 0]], 2.0);
            assert_eq!(c.value().cells[&[0, 1]], 10.0);
        }
        other => panic!("unexpected {:?}", other),
    }
}

#[test]
fn numeric_tensors_that_the_provider_cannot_contract_stay_terms() {
    let mut cube = SparseTensor::new(vec![2, 2, 2]);
    cube[&[0, 0, 0]] = 1.0;
    let a = numeric_tensor(cube);
    let b = tensor(&[2, 1, 1], &[(&[0, 0, 0], 2.0)]);
    let kept = TensorExpression::Constant(a)
        .inner_prod(TensorExpression::Constant(b), &[[0, 0]])
        .unwrap();
    assert!(matches!(kept, TensorExpression::InnerProd { .. }));
}

#[test]
fn numeric_tensors_that_do_not_meet_are_multiplied() {
    let column = tensor(&[2, 1], &[(&[0, 0], 1.0), (&[1, 0], 2.0)]);
    let row = tensor(&[1, 2], &[(&[0, 0], 3.0), (&[0, 1], 4.0)]);
    let outer = contract_terms(
        &vec![TensorExpression::Constant(column), TensorExpression::Constant(row)],
        &vec![vec![], vec![]],
    )
    .unwrap();
    match outer {
        TensorExpression::Constant(c) => {
            assert_eq!(c.value().cells[&[0, 0]], 3.0);
            assert_eq!(c.value().cells[&[0, 1]], 4.0);
            assert_eq!(c.value().cells[&[1, 0]], 6.0);
            assert_eq!(c.value().cells[&[1, 1]], 8.0);
        }
        other => panic!("unexpected {:?}", other),
    }
}

#[test]
fn a_numeric_tensor_times_kronecker_deltas() {
    let a = tensor(&[2, 1], &[(&[0, 0], 5.0), (&[1, 0], 7.0)]);
    let moved = TensorExpression::Constant(a)
        .inner_prod(TensorExpression::KroneckerDeltas(vec![(0, 1)]), &[])
        .unwrap();
    match moved {
        TensorExpression::Constant(c) => {
            assert_eq!(c.value().cells[&[0, 0]], 5.0);
            assert_eq!(c.value().cells[&[0, 1]], 7.0);
        }
        other => panic!("unexpected {:?}", other),
    }
    let b = tensor(&[2, 1], &[(&[0, 0], 5.0)]);
    assert_eq!(
        TensorExpression::KroneckerDeltas(vec![(0, 2)])
            .inner_prod(TensorExpression::Constant(b), &[]),
        Err(AlgebraError::IndexOutOfRange)
    );
    let c = tensor(&[2, 2], &[(&[0, 0], 5.0)]);
    assert_eq!(
        TensorExpression::Constant(c)
            .inner_prod(TensorExpression::KroneckerDeltas(vec![(0, 1)]), &[]),
        Err(AlgebraError::ShapeMismatch)
    );
}

#[test]
fn a_numeric_tensor_of_one_cell_is_a_scalar_factor() {
    let three = tensor(&[1, 1], &[(&[0, 0], 3.0)]);
    let scaled = TensorExpression::Constant(three).inner_prod(square("a"), &[]).unwrap();
    assert_eq!(
        scaled,
        TensorExpression::MulScalarLhs(Box::new(constant(3.0)), Box::new(square("a")))
    );
    let three = tensor(&[1, 1], &[(&[0, 0], 3.0)]);
    let scaled = square("a").inner_prod(TensorExpression::Constant(three), &[]).unwrap();
    assert_eq!(
        scaled,
        TensorExpression::MulScalarRhs(Box::new(square("a")), Box::new(constant(3.0)))
    );
    let one = tensor(&[1], &[(&[0], 1.0)]);
    assert_eq!(TensorExpression::Constant(one).inner_prod(square("a"), &[]).unwrap(), square("a"));
    let zero = tensor(&[1], &[]);
    assert_eq!(
        TensorExpression::Constant(zero).inner_prod(square("a"), &[]).unwrap(),
        TensorExpression::Zero
    );
}

#[test]
fn product_with_a_scalar() {
    assert_eq!(
        mul_scalar(constant(0.0), square("a"), false).unwrap(),
        TensorExpression::Zero
    );
    assert_eq!(mul_scalar(constant(1.0), square("a"), true).unwrap(), square("a"));
    assert_eq!(
        mul_scalar(new_symbol("s".to_string()), TensorExpression::Zero, false).unwrap(),
        TensorExpression::Zero
    );
    assert_eq!(
        mul_scalar(new_symbol("s".to_string()), square("a"), false).unwrap(),
        TensorExpression::MulScalarLhs(Box::new(new_symbol("s".to_string())), Box::new(square("a")))
    );
    assert_eq!(
        square("a").mul(new_symbol("s".to_string())).unwrap(),
        TensorExpression::MulScalarRhs(Box::new(square("a")), Box::new(new_symbol("s".to_string())))
    );
    let t = tensor(&[2], &[(&[0], 1.0), (&[1], 2.0)]);
    match mul_scalar(constant(2.0), TensorExpression::Constant(t), false).unwrap() {
        TensorExpression::Constant(c) => {
            assert_eq!(c.value().cells[&[0]], 2.0);
            assert_eq!(c.value().cells[&[1]], 4.0);
        }
        other => panic!("unexpected {:?}", other),
    }
    let t = tensor(&[2], &[(&[0], 1.0)]);
    let m = Expression::from(ConstantValue::Matrix(numeric_matrix(Matrix::new(2, 2))));
    assert_eq!(
        mul_scalar(m, TensorExpression::Constant(t), false),
        Err(AlgebraError::VariantMismatch)
    );
}

#[test]
fn sums_of_tensors() {
    let a = square("a");
    assert_eq!(a.duplicate().add(TensorExpression::Zero).unwrap(), a);
    assert_eq!(TensorExpression::Zero.add(a.duplicate()).unwrap(), a);
    assert_eq!(a.duplicate().sub(TensorExpression::Zero).unwrap(), a);
    assert_eq!(
        TensorExpression::Zero.sub(a.duplicate()).unwrap(),
        TensorExpression::Neg(Box::new(a.duplicate()))
    );
    assert_eq!(a.duplicate().neg().neg(), a);
    assert_eq!(
        TensorExpression::Zero.neg(),
        TensorExpression::Neg(Box::new(TensorExpression::Zero))
    );
    assert_eq!(TensorExpression::Zero.neg().neg(), TensorExpression::Zero);
    assert_eq!(
        a.duplicate().add(square("b")).unwrap(),
        TensorExpression::Add(Box::new(a.duplicate()), Box::new(square("b")))
    );
    let p = TensorExpression::Constant(tensor(&[2], &[(&[0], 1.0), (&[1], 2.0)]));
    let q = TensorExpression::Constant(tensor(&[2], &[(&[0], 10.0), (&[1], 20.0)]));
    match p.duplicate().add(q.duplicate()).unwrap() {
        TensorExpression::Constant(c) => assert_eq!(c.value().cells[&[1]], 22.0),
        other => panic!("unexpected {:?}", other),
    }
    match p.duplicate().sub(q).unwrap() {
        TensorExpression::Constant(c) => assert_eq!(c.value().cells[&[1]], -18.0),
        other => panic!("unexpected {:?}", other),
    }
    match p.duplicate().neg() {
        TensorExpression::Constant(c) => assert_eq!(c.value().cells[&[1]], -2.0),
        other => panic!("unexpected {:?}", other),
    }
    let r = TensorExpression::Constant(tensor(&[3], &[]));
    assert_eq!(p.add(r), Err(AlgebraError::ShapeMismatch));
}

#[test]
fn shapes() {
    let a = square("a");
    assert_eq!(a.sizes(), vec![Size::Many, Size::Many]);
    assert_eq!(TensorExpression::Zero.sizes(), vec![]);
    assert_eq!(
        TensorExpression::KroneckerDeltas(vec![(0, 1)]).sizes(),
        vec![Size::Many, Size::Many]
    );
    assert_eq!(
        TensorExpression::KroneckerDeltas(vec![(3, 1)]).sizes(),
        vec![Size::One, Size::Many, Size::One, Size::Many]
    );
    assert_eq!(TensorExpression::KroneckerDeltas(vec![]).sizes(), vec![]);
    let vector = TensorExpression::Symbol("v".to_string(), vec![Size::Many]);
    let own = vector.derivative(&"v".to_string()).unwrap();
    assert_eq!(own.sizes(), vec![Size::Many, Size::Many]);
    let t = TensorExpression::Constant(tensor(&[3, 1, 2], &[]));
    assert_eq!(t.sizes(), vec![Size::Many, Size::One, Size::Many]);
    let product = square("a").inner_prod(square("b"), &[[1, 0]]).unwrap();
    assert_eq!(product.sizes(), vec![Size::Many, Size::Many]);
    let column = TensorExpression::Symbol("v".to_string(), vec![Size::Many]);
    let reduced = square("a").inner_prod(column.duplicate(), &[[1, 0]]).unwrap();
    assert_eq!(reduced.sizes(), vec![Size::Many, Size::One]);
    let terms = vec![square("a"), column];
    let rows = vec![vec![(0, 0)], vec![(0, 0)]];
    assert_eq!(
        TensorExpression::size_inner_prod(&terms, &rows),
        vec![Size::One, Size::Many]
    );
    let m = MatrixExpression::Constant(numeric_matrix(Matrix::new(3, 1)));
    assert_eq!(m.sizes(), vec![Size::Many, Size::One]);
    assert_eq!(m.t().sizes(), vec![Size::One, Size::Many]);
    let e = new_variable_tensor("x".to_string(), vec![Size::Many, Size::One]);
    assert_eq!(e.sizes(), vec![Size::Many, Size::One]);
    assert_eq!(e.not_1dimension_ranks(), 1);
    assert!(e.is_same_size(&TensorExpression::Symbol(
        "y".to_string(),
        vec![Size::Many, Size::One]
    )));
    assert!(!e.is_same_size(&square("a")));
    assert!(e.is_same_size(&TensorExpression::Zero));
    assert!(new_symbol("s".to_string()).is_same_size(&square("a")));
    assert_eq!(new_symbol("s".to_string()).sizes(), vec![]);
    assert_eq!(Size::of(0), Size::One);
    assert_eq!(Size::of(1), Size::One);
    assert_eq!(Size::of(2), Size::Many);
}

#[test]
fn open_ranks_and_their_terms() {
    let terms = vec![square("a"), square("b"), square("c")];
    let rows = vec![vec![(1, 1)], vec![(0, 1), (1, 0)], vec![(0, 0)]];
    let owners = TensorExpression::not_1dimension_ranks_in_inner_prod(&terms, &rows).unwrap();
    let mut expected = HashMap::new();
    expected.insert(0, 0);
    expected.insert(1, 2);
    assert_eq!(owners, expected);
    let none = vec![vec![], vec![], vec![]];
    assert_eq!(
        TensorExpression::not_1dimension_ranks_in_inner_prod(&terms, &none),
        Err(AlgebraError::ShapeMismatch)
    );
    let empty = TensorExpression::not_1dimension_ranks_in_inner_prod(&vec![], &vec![]).unwrap();
    assert!(empty.is_empty());
}

#[test]
fn dot_of_expressions() {
    let a = Expression::Tensor(Box::new(square("a")));
    let b = Expression::Tensor(Box::new(square("b")));
    let product = a.duplicate().dot(b, &[[1, 0]]).unwrap();
    assert_eq!(
        product,
        Expression::Tensor(Box::new(
            square("a").inner_prod(square("b"), &[[1, 0]]).unwrap()
        ))
    );
    assert_eq!(
        a.duplicate().dot(new_symbol("s".to_string()), &[]),
        Err(AlgebraError::VariantMismatch)
    );
    assert_eq!(new_symbol("s".to_string()).t(), Err(AlgebraError::VariantMismatch));
    assert_eq!(new_symbol("s".to_string()).inv(), Err(AlgebraError::VariantMismatch));
    assert_eq!(new_symbol("s".to_string()).det(), Err(AlgebraError::VariantMismatch));
    let inverse = a.duplicate().inv().unwrap();
    assert_eq!(inverse.duplicate().inv().unwrap(), Expression::Matrix(Box::new(
        MatrixExpression::Mat(Box::new(square("a")))
    )));
    assert_eq!(a.duplicate().t().unwrap().t().unwrap(), Expression::Matrix(Box::new(
        MatrixExpression::Mat(Box::new(square("a")))
    )));
    let det = a.det().unwrap();
    assert_eq!(det.inv(), Err(AlgebraError::VariantMismatch));
    let m = MatrixExpression::Constant(numeric_matrix(Matrix::from(2, vec![1.0, 2.0, 3.0, 4.0, 5.0, 6.0]).unwrap()));
    match m.t() {
        MatrixExpression::Constant(c) => {
            assert_eq!(c.value().cells.rows(), 3);
            assert_eq!(c.value().cells.cols(), 2);
            assert_eq!(c.value().cells[(2, 1)], 6.0);
            assert_eq!(c.value().cells[(0, 1)], 2.0);
        }
        other => panic!("unexpected {:?}", other),
    }
}

#[test]
fn kronecker_deltas_that_name_one_rank_are_fused() {
    let terms = vec![
        TensorExpression::KroneckerDeltas(vec![(0, 1)]),
        TensorExpression::KroneckerDeltas(vec![(0, 2)]),
    ];
    assert_eq!(
        contract_terms(&terms, &vec![vec![], vec![]]).unwrap(),
        flat(vec![TensorExpression::KroneckerDeltas(vec![(0, 1), (0, 2)])], vec![vec![]])
    );
    let column = TensorExpression::Symbol("v".to_string(), vec![Size::Many]);
    let terms = vec![
        TensorExpression::KroneckerDeltas(vec![(0, 1)]),
        column.duplicate(),
        TensorExpression::KroneckerDeltas(vec![(1, 2)]),
    ];
    assert_eq!(
        contract_terms(&terms, &vec![vec![(0, 4)], vec![(0, 4)], vec![]]).unwrap(),
        flat(
            vec![TensorExpression::KroneckerDeltas(vec![(0, 1), (1, 2)]), column.duplicate()],
            vec![vec![(0, 4)], vec![(0, 4)]]
        )
    );
    let row = TensorExpression::Symbol("w".to_string(), vec![Size::Many]);
    let twice = vec![
        TensorExpression::KroneckerDeltas(vec![(0, 1)]),
        TensorExpression::KroneckerDeltas(vec![(0, 2)]),
        column,
        row,
    ];
    assert_eq!(
        contract_terms(&twice, &vec![vec![(0, 0)], vec![(0, 1)], vec![(0, 0)], vec![(0, 1)]]),
        Err(AlgebraError::AmbiguousContraction)
    );
}

#[test]
fn the_fused_deltas_and_another_term_may_not_claim_one_rank() {
    let terms = vec![
        TensorExpression::KroneckerDeltas(vec![(0, 1)]),
        TensorExpression::Symbol("v".to_string(), vec![Size::Many]),
    ];
    assert_eq!(
        contract_terms(&terms, &vec![vec![], vec![]]),
        Err(AlgebraError::ShapeMismatch)
    );
}

#[test]
fn a_zero_term_does_not_hide_an_ambiguous_rewiring() {
    let both = flat(vec![square("a"), square("b")], vec![vec![], vec![]]);
    assert_eq!(
        contract_terms(&vec![both.duplicate(), TensorExpression::Zero], &vec![vec![(0, 0)], vec![]]),
        Err(AlgebraError::AmbiguousContraction)
    );
    assert_eq!(
        both.inner_prod(TensorExpression::Zero, &[[0, 0]]),
        Err(AlgebraError::AmbiguousContraction)
    );
    assert_eq!(
        contract_terms(
            &vec![square("a"), TensorExpression::Zero],
            &vec![vec![(0, 0), (0, 1)], vec![]]
        )
        .unwrap(),
        TensorExpression::Zero
    );
    assert_eq!(
        square("a").inner_prod(TensorExpression::Zero, &[[0, 0], [0, 1]]).unwrap(),
        TensorExpression::Zero
    );
    let one = flat(vec![TensorExpression::Symbol("v".to_string(), vec![Size::Many])], vec![vec![]]);
    assert_eq!(
        contract_terms(&vec![one, TensorExpression::Zero], &vec![vec![(0, 0)], vec![]]).unwrap(),
        TensorExpression::Zero
    );
}

#[test]
fn a_numeric_tensor_without_cells_is_padded_as_it_is() {
    let empty = tensor(&[2], &[]);
    let b = tensor(&[2, 2], &[(&[0, 0], 2.0), (&[1, 1], 5.0)]);
    let folded = TensorExpression::Constant(empty)
        .inner_prod(TensorExpression::Constant(b), &[[0, 0]])
        .unwrap();
    match folded {
        TensorExpression::Constant(c) => {
            assert_eq!(c.value().cells.size(0), 1);
            assert_eq!(c.value().cells.size(1), 2);
            assert_eq!(c.value().cells[&[0, 0]], 0.0);
            assert_eq!(c.value().cells[&[0, 1]], 0.0);
        }
        other => panic!("unexpected {:?}", other),
    }
}

#[test]
fn a_numeric_tensor_with_an_empty_axis_is_folded() {
    let none = tensor(&[0], &[]);
    let b = tensor(&[1, 2], &[(&[0, 0], 1.0)]);
    let terms = vec![TensorExpression::Constant(none), TensorExpression::Constant(b)];
    let rows: Vec<Vec<(usize, usize)>> = vec![vec![], vec![]];
    match contract_terms(&terms, &rows).unwrap() {
        TensorExpression::Constant(c) => {
            assert_eq!(c.value().cells.rank(), 2);
            assert_eq!(c.value().cells.size(0), 0);
            assert_eq!(c.value().cells.size(1), 2);
            assert!(c.value().cells.elems().is_empty());
        }
        other => panic!("unexpected {:?}", other),
    }
}

#[test]
fn the_outer_product_with_a_tensor_without_cells_is_zero() {
    let none = tensor(&[2, 1], &[]);
    let row = tensor(&[1, 2], &[(&[0, 0], 3.0), (&[0, 1], 4.0)]);
    let rows: Vec<Vec<(usize, usize)>> = vec![vec![], vec![]];
    for terms in [
        vec![TensorExpression::Constant(none.duplicate()), TensorExpression::Constant(row.duplicate())],
        vec![TensorExpression::Constant(row.duplicate()), TensorExpression::Constant(none.duplicate())],
    ] {
        match contract_terms(&terms, &rows).unwrap() {
            TensorExpression::Constant(c) => {
                assert_eq!(c.value().cells.size(0), 2);
                assert_eq!(c.value().cells.size(1), 2);
                assert_eq!(c.value().cells[&[0, 0]], 0.0);
                assert_eq!(c.value().cells[&[1, 1]], 0.0);
                assert!(c.value().cells.elems().is_empty());
            }
            other => panic!("unexpected {:?}", other),
        }
    }
    let neither = vec![
        TensorExpression::Constant(none.duplicate()),
        TensorExpression::Constant(tensor(&[1, 2], &[])),
    ];
    assert_eq!(
        contract_terms(&neither, &rows).unwrap(),
        flat(
            vec![
                TensorExpression::Constant(none),
                TensorExpression::Constant(tensor(&[1, 2], &[]))
            ],
            rows
        )
    );
}
