use opensrdk_linear_algebra::sparse::SparseTensor;
use opensrdk_linear_algebra::Matrix;
use opensrdk_symbolic_computation::NumericTensor;
use opensrdk_symbolic_computation::NumericMatrix;
use opensrdk_symbolic_computation::AlgebraError;
use opensrdk_symbolic_computation::ConstantValue;
use opensrdk_symbolic_computation::MatrixValue;
use opensrdk_symbolic_computation::Scalar;
use opensrdk_symbolic_computation::ScalarClass;
use opensrdk_symbolic_computation::TensorValue;

fn numeric_tensor(cells: SparseTensor) -> NumericTensor {
    NumericTensor::new(TensorValue { cells }).unwrap()
}

fn numeric_matrix(cells: Matrix) -> NumericMatrix {
    NumericMatrix::new(MatrixValue { cells }).unwrap()
}

fn cell(v: f64) -> MatrixValue {
    MatrixValue { cells: Matrix::from(1, vec![v]).unwrap() }
}

fn scalar(v: f64) -> ConstantValue {
    ConstantValue::Scalar(Scalar::new(cell(v)).unwrap())
}

fn number(c: &ConstantValue) -> f64 {
    match c {
        ConstantValue::Scalar(s) => s.cell().cells[(0, 0)],
        _ => panic!("not a scalar"),
    }
}

fn vector(values: &[f64]) -> ConstantValue {
    let mut t = SparseTensor::new(vec![values.len()]);
    for (i, v) in values.iter().enumerate() {
        t[&[i]] = *v;
    }
    ConstantValue::Tensor(numeric_tensor(t))
}

fn cells(c: &ConstantValue) -> Vec<f64> {
    match c {
        ConstantValue::Tensor(t) => (0..t.value().cells.total_size()).map(|i| t.value().cells[&[i]]).collect(),
        ConstantValue::Matrix(m) => m.value().cells.elems().to_vec(),
        ConstantValue::Scalar(s) => vec![s.cell().cells[(0, 0)]],
    }
}

fn matrix(rows: usize, values: &[f64]) -> ConstantValue {
    ConstantValue::Matrix(numeric_matrix(Matrix::from(rows, values.to_vec()).unwrap()))
}

#[test]
fn scalar_sum_is_the_sum() {
    let r = scalar(2.0).add(&scalar(3.5)).unwrap();
    assert_eq!(number(&r), 5.5);
}

#[test]
fn scalar_difference_quotient_product() {
    assert_eq!(number(&scalar(2.0).sub(&scalar(3.5)).unwrap()), -1.5);
    assert_eq!(number(&scalar(6.0).div(&scalar(4.0)).unwrap()), 1.5);
    assert_eq!(number(&scalar(6.0).mul(&scalar(4.0)).unwrap()), 24.0);
    assert_eq!(number(&scalar(6.0).neg()), -6.0);
}

#[test]
fn scalar_classes() {
    assert_eq!(Scalar::new(cell(0.0)).unwrap().class(), ScalarClass::Zero);
    assert_eq!(Scalar::new(cell(1.0)).unwrap().class(), ScalarClass::One);
    assert_eq!(Scalar::new(cell(2.0)).unwrap().class(), ScalarClass::Other);
    assert_eq!(Scalar::zero().cell().cells[(0, 0)], 0.0);
    assert_eq!(Scalar::one().cell().cells[(0, 0)], 1.0);
    assert!(Scalar::zero().is_zero());
    assert!(Scalar::one().is_one());
    assert!(!Scalar::one().is_zero());
    assert!(Scalar::new(MatrixValue { cells: Matrix::new(2, 1) }).is_none());
}

#[test]
fn a_sum_that_is_zero_is_the_zero() {
    let r = scalar(2.0).sub(&scalar(2.0)).unwrap();
    assert_eq!(r, ConstantValue::Scalar(Scalar::zero()));
    assert!(r.is_zero_scalar());
    let one = scalar(3.0).sub(&scalar(2.0)).unwrap();
    assert!(one.is_one_scalar());
    let negative_zero = scalar(0.0).neg();
    assert!(negative_zero.is_zero_scalar());
}

#[test]
fn scalar_from_ratio_is_exact() {
    assert_eq!(Scalar::from_ratio(3, 2).cell().cells[(0, 0)], 1.5);
    assert_eq!(Scalar::from_ratio(-7, 4).cell().cells[(0, 0)], -1.75);
    assert_eq!(Scalar::from_ratio(0, 5).cell().cells[(0, 0)], 0.0);
    assert_eq!(Scalar::from_ratio(1000001, 1).cell().cells[(0, 0)], 1000001.0);
    assert_eq!(Scalar::from_ratio(i64::MIN, 1).cell().cells[(0, 0)], -9223372036854775808.0);
}

#[test]
fn scalar_text_is_decimal() {
    assert_eq!(Scalar::from_ratio(3, 2).to_text(), "1.5");
    assert_eq!(Scalar::from_ratio(-2, 1).to_text(), "-2");
}

#[test]
fn duplicate_keeps_the_value() {
    let v = vector(&[1.0, 2.0]);
    assert_eq!(v.duplicate(), v);
    let m = matrix(2, &[1.0, 2.0, 3.0, 4.0]);
    assert_eq!(m.duplicate(), m);
    let s = scalar(7.0);
    assert_eq!(s.duplicate(), s);
}

#[test]
fn tensor_and_matrix_do_not_combine() {
    let t = vector(&[1.0, 2.0]);
    let m = matrix(2, &[1.0, 2.0, 3.0, 4.0]);
    assert_eq!(t.add(&m), Err(AlgebraError::VariantMismatch));
    assert_eq!(t.div(&m), Err(AlgebraError::VariantMismatch));
    assert_eq!(m.mul(&t), Err(AlgebraError::VariantMismatch));
    assert_eq!(m.sub(&t), Err(AlgebraError::VariantMismatch));
}

#[test]
fn two_shapes_do_not_combine() {
    let a = vector(&[1.0, 2.0]);
    let b = vector(&[1.0, 2.0, 3.0]);
    assert_eq!(a.add(&b), Err(AlgebraError::ShapeMismatch));
    assert_eq!(a.sub(&b), Err(AlgebraError::ShapeMismatch));
    assert_eq!(a.mul(&b), Err(AlgebraError::ShapeMismatch));
    assert_eq!(a.div(&b), Err(AlgebraError::ShapeMismatch));
    let m = matrix(2, &[1.0, 2.0, 3.0, 4.0]);
    let n = matrix(1, &[1.0, 2.0, 3.0, 4.0]);
    assert_eq!(m.add(&n), Err(AlgebraError::ShapeMismatch));
    assert_eq!(m.sub(&n), Err(AlgebraError::ShapeMismatch));
    assert_eq!(m.mul(&n), Err(AlgebraError::ShapeMismatch));
    assert_eq!(m.div(&n), Err(AlgebraError::ShapeMismatch));
}

#[test]
fn tensors_combine_cell_by_cell() {
    let a = vector(&[8.0, 6.0]);
    let b = vector(&[2.0, 3.0]);
    assert_eq!(cells(&a.add(&b).unwrap()), vec![10.0, 9.0]);
    assert_eq!(cells(&a.sub(&b).unwrap()), vec![6.0, 3.0]);
    assert_eq!(cells(&a.mul(&b).unwrap()), vec![16.0, 18.0]);
    assert_eq!(cells(&a.div(&b).unwrap()), vec![4.0, 2.0]);
    assert_eq!(cells(&a.neg()), vec![-8.0, -6.0]);
}

#[test]
fn matrices_combine_cell_by_cell() {
    let a = matrix(2, &[8.0, 6.0, 4.0, 2.0]);
    let b = matrix(2, &[2.0, 3.0, 4.0, 1.0]);
    assert_eq!(cells(&a.add(&b).unwrap()), vec![10.0, 9.0, 8.0, 3.0]);
    assert_eq!(cells(&a.sub(&b).unwrap()), vec![6.0, 3.0, 0.0, 1.0]);
    assert_eq!(cells(&a.mul(&b).unwrap()), vec![16.0, 18.0, 16.0, 2.0]);
    assert_eq!(cells(&a.div(&b).unwrap()), vec![4.0, 2.0, 1.0, 2.0]);
    assert_eq!(cells(&a.neg()), vec![-8.0, -6.0, -4.0, -2.0]);
}

#[test]
fn a_scalar_is_broadcast_over_a_tensor() {
    let t = vector(&[8.0, 4.0]);
    let s = scalar(2.0);
    assert_eq!(cells(&s.add(&t).unwrap()), vec![10.0, 6.0]);
    assert_eq!(cells(&t.add(&s).unwrap()), vec![10.0, 6.0]);
    assert_eq!(cells(&s.sub(&t).unwrap()), vec![-6.0, -2.0]);
    assert_eq!(cells(&t.sub(&s).unwrap()), vec![6.0, 2.0]);
    assert_eq!(cells(&s.mul(&t).unwrap()), vec![16.0, 8.0]);
    assert_eq!(cells(&t.mul(&s).unwrap()), vec![16.0, 8.0]);
    assert_eq!(cells(&s.div(&t).unwrap()), vec![0.25, 0.5]);
    assert_eq!(cells(&t.div(&s).unwrap()), vec![4.0, 2.0]);
}

#[test]
fn a_scalar_is_broadcast_over_a_matrix() {
    let m = matrix(2, &[8.0, 4.0, 2.0, 1.0]);
    let s = scalar(2.0);
    assert_eq!(cells(&s.add(&m).unwrap()), vec![10.0, 6.0, 4.0, 3.0]);
    assert_eq!(cells(&m.add(&s).unwrap()), vec![10.0, 6.0, 4.0, 3.0]);
    assert_eq!(cells(&s.sub(&m).unwrap()), vec![-6.0, -2.0, 0.0, 1.0]);
    assert_eq!(cells(&m.sub(&s).unwrap()), vec![6.0, 2.0, 0.0, -1.0]);
    assert_eq!(cells(&s.mul(&m).unwrap()), vec![16.0, 8.0, 4.0, 2.0]);
    assert_eq!(cells(&m.mul(&s).unwrap()), vec![16.0, 8.0, 4.0, 2.0]);
    assert_eq!(cells(&s.div(&m).unwrap()), vec![0.25, 0.5, 1.0, 2.0]);
    assert_eq!(cells(&m.div(&s).unwrap()), vec![4.0, 2.0, 1.0, 0.5]);
}

#[test]
fn sizes_of_constants() {
    assert_eq!(scalar(1.0).sizes(), Vec::<usize>::new());
    assert_eq!(vector(&[1.0, 2.0, 3.0]).sizes(), vec![3]);
    assert_eq!(matrix(2, &[0.0; 10]).sizes(), vec![2, 5]);
}

#[test]
fn parts_of_constants() {
    let v = vector(&[1.0, 2.0]);
    assert_eq!(v.into_tensor_ref().value().cells[&[1]], 2.0);
    assert_eq!(v.into_tensor().value().cells[&[0]], 1.0);
    let m = matrix(2, &[1.0, 2.0, 3.0, 4.0]);
    assert_eq!(m.into_matrix_ref().value().cells[(1, 1)], 4.0);
    assert_eq!(m.into_matrix().value().cells[(0, 1)], 3.0);
    assert_eq!(scalar(5.0).into_scalar().cell().cells[(0, 0)], 5.0);
}
