use opensrdk_linear_algebra::sparse::SparseTensor;
use opensrdk_linear_algebra::Matrix;
use opensrdk_symbolic_computation::NumericTensor;
use opensrdk_symbolic_computation::NumericMatrix;
use opensrdk_symbolic_computation::new_symbol;
use opensrdk_symbolic_computation::new_variable;
use opensrdk_symbolic_computation::new_variable_tensor;
use opensrdk_symbolic_computation::AlgebraError;
use opensrdk_symbolic_computation::ConstantValue;
use opensrdk_symbolic_computation::Expression;
use opensrdk_symbolic_computation::MatrixValue;
use opensrdk_symbolic_computation::Scalar;
use opensrdk_symbolic_computation::Size;
use opensrdk_symbolic_computation::TensorExpression;
use opensrdk_symbolic_computation::TensorValue;
use std::collections::HashSet;

fn numeric_tensor(cells: SparseTensor) -> NumericTensor {
    NumericTensor::new(TensorValue { cells }).unwrap()
}

fn numeric_matrix(cells: Matrix) -> NumericMatrix {
    NumericMatrix::new(MatrixValue { cells }).unwrap()
}

fn value(v: f64) -> ConstantValue {
    let cell = MatrixValue { cells: Matrix::from(1, vec![v]).unwrap() };
    ConstantValue::Scalar(Scalar::new(cell).unwrap())
}

fn constant(v: f64) -> Expression {
    Expression::from(value(v))
}

fn names() -> Vec<(String, String)> {
    vec![("x", "x"), ("mu", r"\mu"), ("lambda", r"\Lambda")]
        .into_iter()
        .map(|(a, b)| (a.to_string(), b.to_string()))
        .collect()
}

fn vector(values: &[f64]) -> NumericTensor {
    let mut t = SparseTensor::new(vec![values.len()]);
    for (i, v) in values.iter().enumerate() {
        t[&[i]] = *v;
    }
    numeric_tensor(t)
}

#[test]
fn test_main() {
    let x = new_variable_tensor("x".to_owned(), vec![Size::Many]);
    let mu = new_variable_tensor("mu".to_owned(), vec![Size::Many]);
    let _lsigma = new_variable_tensor("lsigma".to_owned(), vec![Size::Many; 2]);
    let precision = new_variable_tensor("lambda".to_owned(), vec![Size::Many; 2]);

    let pdf_expression = constant(-0.5)
        .mul(
            x.duplicate()
                .sub(mu.duplicate())
                .unwrap()
                .dot(precision, &[[0, 0]])
                .unwrap()
                .dot(x.duplicate().sub(mu.duplicate()).unwrap(), &[[1, 0]])
                .unwrap(),
        )
        .unwrap()
        .exp();

    let diff = pdf_expression.differential(&["x", "mu", "lambda"]).unwrap();
    let tex_symbols = names();

    println!("x diff");
    println!("{:#?}", diff[0].tex_code(&tex_symbols));
    println!("mu diff");
    println!("{:#?}", diff[1].tex_code(&tex_symbols));
    println!("sigma diff");
    println!("{:#?}", diff[2].tex_code(&tex_symbols));
}

#[test]
fn test_main2() {
    let x = new_variable_tensor("x".to_owned(), vec![Size::Many, Size::One]);
    let mu = new_variable_tensor("mu".to_owned(), vec![Size::Many, Size::One]);
    let _lsigma = new_variable_tensor("lsigma".to_owned(), vec![Size::Many; 2]);
    let precision = new_variable_tensor("lambda".to_owned(), vec![Size::Many; 2]);

    let pdf_expression = constant(-0.5)
        .mul(
            x.duplicate()
                .sub(mu.duplicate())
                .unwrap()
                .t()
                .unwrap()
                .dot(precision, &[[1, 0]])
                .unwrap()
                .dot(x.duplicate().sub(mu.duplicate()).unwrap(), &[[1, 0]])
                .unwrap(),
        )
        .unwrap()
        .exp();

    let diff = pdf_expression.differential(&["x", "mu", "lambda"]).unwrap();
    let tex_symbols = names();

    println!("x diff");
    println!("{:#?}", diff[0].tex_code(&tex_symbols));
    println!("mu diff");
    println!("{:#?}", diff[1].tex_code(&tex_symbols));
    println!("sigma diff");
    println!("{:#?}", diff[2].tex_code(&tex_symbols));
}

#[test]
fn variable_it_works() {
    let id = "x";
    let a = HashSet::from([id; 1]);
    let ea = new_variable((id).to_string());
    let ids = ea.variable_ids();
    let ha: HashSet<&str> = ids.iter().map(|s| s.as_str()).collect();

    assert_eq!(a, ha);
}

#[test]
fn names_are_listed_once_in_the_order_of_the_tree() {
    let x = new_variable_tensor("x".to_owned(), vec![Size::Many]);
    let mu = new_variable_tensor("mu".to_owned(), vec![Size::Many]);
    let precision = new_variable_tensor("lambda".to_owned(), vec![Size::Many; 2]);
    let d = x.sub(mu).unwrap();
    let form = d.duplicate().dot(precision, &[[0, 0]]).unwrap().dot(d, &[[1, 0]]).unwrap();
    let e = new_symbol("s".to_string()).mul(form).unwrap().exp().add(new_symbol("x".to_string())).unwrap();
    assert_eq!(e.variable_ids(), vec!["s", "x", "mu", "lambda"]);
    assert_eq!(constant(1.0).variable_ids(), Vec::<String>::new());
}

#[test]
fn gaussian_form_and_its_gradients() {
    let x = new_variable_tensor("x".to_owned(), vec![Size::Many]);
    let mu = new_variable_tensor("mu".to_owned(), vec![Size::Many]);
    let precision = new_variable_tensor("lambda".to_owned(), vec![Size::Many; 2]);
    let d = TensorExpression::Sub(
        Box::new(TensorExpression::Symbol("x".to_string(), vec![Size::Many])),
        Box::new(TensorExpression::Symbol("mu".to_string(), vec![Size::Many])),
    );
    let lambda = TensorExpression::Symbol("lambda".to_string(), vec![Size::Many; 2]);
    let difference = x.sub(mu).unwrap();
    assert_eq!(difference, Expression::Tensor(Box::new(d.duplicate())));
    let form = difference
        .duplicate()
        .dot(precision, &[[0, 0]])
        .unwrap()
        .dot(difference, &[[1, 0]])
        .unwrap();
    let rows = vec![vec![(0, 1)], vec![(0, 1), (1, 0)], vec![(0, 0)]];
    let contraction = TensorExpression::InnerProd {
        terms: vec![d.duplicate(), lambda.duplicate(), d.duplicate()],
        rank_combinations: rows.clone(),
    };
    assert_eq!(form, Expression::Tensor(Box::new(contraction.duplicate())));
    let f = constant(-0.5).mul(form).unwrap();
    assert_eq!(
        f,
        Expression::Tensor(Box::new(TensorExpression::MulScalarLhs(
            Box::new(constant(-0.5)),
            Box::new(contraction)
        )))
    );
    let g = f.differential(&["x", "mu", "lambda"]).unwrap();
    assert_eq!(g.len(), 3);
    let delta = TensorExpression::KroneckerDeltas(vec![(0, 2)]);
    let first = TensorExpression::InnerProd {
        terms: vec![delta.duplicate(), lambda.duplicate(), d.duplicate()],
        rank_combinations: vec![vec![(0, 1)], vec![(0, 1), (1, 0)], vec![(0, 0)]],
    };
    let last = TensorExpression::InnerProd {
        terms: vec![delta.duplicate(), d.duplicate(), lambda.duplicate()],
        rank_combinations: vec![vec![(0, 0)], vec![(0, 1)], vec![(0, 1), (1, 0)]],
    };
    let by_x = TensorExpression::MulScalarLhs(
        Box::new(constant(-0.5)),
        Box::new(TensorExpression::Add(Box::new(first.duplicate()), Box::new(last.duplicate()))),
    );
    assert_eq!(g[0], Expression::Tensor(Box::new(by_x)));
    let negative = TensorExpression::Neg(Box::new(delta));
    let first = TensorExpression::InnerProd {
        terms: vec![negative.duplicate(), lambda.duplicate(), d.duplicate()],
        rank_combinations: rows.clone(),
    };
    let last = TensorExpression::InnerProd {
        terms: vec![d.duplicate(), lambda, negative],
        rank_combinations: rows,
    };
    let by_mu = TensorExpression::MulScalarLhs(
        Box::new(constant(-0.5)),
        Box::new(TensorExpression::Add(Box::new(first), Box::new(last))),
    );
    assert_eq!(g[1], Expression::Tensor(Box::new(by_mu)));
    let by_lambda = TensorExpression::MulScalarLhs(
        Box::new(constant(-0.5)),
        Box::new(TensorExpression::InnerProd {
            terms: vec![
                TensorExpression::KroneckerDeltas(vec![(0, 2), (1, 3)]),
                d.duplicate(),
                d,
            ],
            rank_combinations: vec![vec![(0, 1), (1, 0)], vec![(0, 1)], vec![(0, 0)]],
        }),
    );
    assert_eq!(g[2], Expression::Tensor(Box::new(by_lambda)));
    assert_eq!(g[2].sizes(), vec![Size::One, Size::One, Size::Many, Size::Many]);
    assert_eq!(g[0].sizes(), vec![Size::One, Size::One, Size::Many]);
    assert_eq!(g[1].sizes(), vec![Size::One, Size::One, Size::Many]);
    assert_eq!(f.sizes(), vec![Size::One, Size::One]);
    let at = vec![
        ("x".to_string(), ConstantValue::Tensor(vector(&[3.0, 5.0]))),
        ("mu".to_string(), ConstantValue::Tensor(vector(&[1.0, 1.0]))),
    ];
    match g[2].assign(&at).unwrap() {
        Expression::Tensor(t) => match *t {
            TensorExpression::Constant(c) => {
                assert_eq!(c.value().cells[&[0, 0, 0, 0]], -2.0);
                assert_eq!(c.value().cells[&[0, 0, 0, 1]], -4.0);
                assert_eq!(c.value().cells[&[0, 0, 1, 0]], -4.0);
                assert_eq!(c.value().cells[&[0, 0, 1, 1]], -8.0);
            }
            other => panic!("unexpected {:?}", other),
        },
        other => panic!("unexpected {:?}", other),
    }
}

fn folded(e: &Expression, at: &Vec<(String, ConstantValue)>) -> NumericTensor {
    match e.assign(at).unwrap() {
        Expression::Tensor(t) => match *t {
            TensorExpression::Constant(c) => c,
            other => panic!("not folded: {:?}", other),
        },
        other => panic!("not folded: {:?}", other),
    }
}

#[test]
fn gaussian_gradients_at_a_point() {
    let x = new_variable_tensor("x".to_owned(), vec![Size::Many]);
    let mu = new_variable_tensor("mu".to_owned(), vec![Size::Many]);
    let precision = new_variable_tensor("lambda".to_owned(), vec![Size::Many; 2]);
    let difference = x.sub(mu).unwrap();
    let form = difference
        .duplicate()
        .dot(precision, &[[0, 0]])
        .unwrap()
        .dot(difference, &[[1, 0]])
        .unwrap();
    let f = constant(-0.5).mul(form).unwrap();
    let g = f.differential(&["x", "mu", "lambda"]).unwrap();
    let mut lambda = SparseTensor::new(vec![2, 2]);
    lambda[&[0, 0]] = 2.0;
    lambda[&[0, 1]] = 0.0;
    lambda[&[1, 0]] = 0.0;
    lambda[&[1, 1]] = 1.0;
    let at = vec![
        ("x".to_string(), ConstantValue::Tensor(vector(&[1.0, 2.0]))),
        ("mu".to_string(), ConstantValue::Tensor(vector(&[0.0, 0.0]))),
        ("lambda".to_string(), ConstantValue::Tensor(numeric_tensor(lambda))),
    ];
    let value = folded(&f, &at);
    assert_eq!(value.value().cells[&[0, 0]], -3.0);
    let by_x = folded(&g[0], &at);
    assert_eq!(by_x.value().cells[&[0, 0, 0]], -2.0);
    assert_eq!(by_x.value().cells[&[0, 0, 1]], -2.0);
    let by_mu = folded(&g[1], &at);
    assert_eq!(by_mu.value().cells[&[0, 0, 0]], 2.0);
    assert_eq!(by_mu.value().cells[&[0, 0, 1]], 2.0);
    let by_lambda = folded(&g[2], &at);
    assert_eq!(by_lambda.value().cells[&[0, 0, 0, 0]], -0.5);
    assert_eq!(by_lambda.value().cells[&[0, 0, 0, 1]], -1.0);
    assert_eq!(by_lambda.value().cells[&[0, 0, 1, 0]], -1.0);
    assert_eq!(by_lambda.value().cells[&[0, 0, 1, 1]], -2.0);
}

#[test]
fn assignment() {
    let x = new_symbol("x".to_string());
    let y = new_symbol("y".to_string());
    let e = x.duplicate().add(y.duplicate()).unwrap();
    let at = vec![("x".to_string(), value(2.0)), ("x".to_string(), value(9.0))];
    let partly = e.assign(&at).unwrap();
    assert_eq!(partly, constant(2.0).add(y.duplicate()).unwrap());
    assert_eq!(e.evaluate(&at).unwrap(), partly);
    let fully = partly.assign(&vec![("y".to_string(), value(3.0))]).unwrap();
    assert_eq!(fully, constant(5.0));
    assert_eq!(e.assign(&Vec::new()).unwrap(), e);
    let t = TensorExpression::Symbol("t".to_string(), vec![Size::Many]);
    let bound = t.assign(&vec![("t".to_string(), ConstantValue::Tensor(vector(&[1.0, 2.0])))]);
    assert_eq!(bound.unwrap(), TensorExpression::Constant(vector(&[1.0, 2.0])));
    assert_eq!(
        t.assign(&vec![("t".to_string(), value(1.0))]),
        Err(AlgebraError::VariantMismatch)
    );
    let entry = Expression::element(t, vec![1]).unwrap();
    let at = vec![("t".to_string(), ConstantValue::Tensor(vector(&[1.0, 2.0])))];
    assert_eq!(entry.assign(&at).unwrap(), constant(2.0));
    let beyond = Expression::element(
        TensorExpression::Symbol("t".to_string(), vec![Size::Many]),
        vec![2],
    )
    .unwrap();
    assert_eq!(beyond.assign(&at), Err(AlgebraError::IndexOutOfRange));
    assert_eq!(
        Expression::element(TensorExpression::Constant(vector(&[1.0])), vec![0, 0]),
        Err(AlgebraError::IndexOutOfRange)
    );
    let power = x.duplicate().mul(x.duplicate()).unwrap().sin();
    assert_eq!(
        power.assign(&vec![("x".to_string(), value(2.0))]).unwrap(),
        constant(4.0).sin()
    );
}

#[test]
fn simplification_rules() {
    let x = new_symbol("x".to_string());
    assert_eq!(x.duplicate().add(Expression::zero()).unwrap(), x);
    assert_eq!(Expression::zero().add(x.duplicate()).unwrap(), x);
    assert_eq!(x.duplicate().sub(Expression::zero()).unwrap(), x);
    assert_eq!(Expression::zero().sub(x.duplicate()).unwrap(), x.duplicate().neg());
    assert_eq!(x.duplicate().mul(Expression::one()).unwrap(), x);
    assert_eq!(Expression::one().mul(x.duplicate()).unwrap(), x);
    assert_eq!(x.duplicate().mul(Expression::zero()).unwrap(), Expression::zero());
    assert_eq!(Expression::zero().mul(x.duplicate()).unwrap(), Expression::zero());
    assert_eq!(x.duplicate().div(Expression::one()).unwrap(), x);
    assert_eq!(x.duplicate().neg().neg(), x);
    assert_eq!(constant(2.0).add(constant(3.0)).unwrap(), constant(5.0));
    assert_eq!(constant(2.0).sub(constant(3.0)).unwrap(), constant(-1.0));
    assert_eq!(constant(2.0).mul(constant(3.0)).unwrap(), constant(6.0));
    assert_eq!(constant(3.0).div(constant(2.0)).unwrap(), constant(1.5));
    assert_eq!(constant(3.0).neg(), constant(-3.0));
    assert_eq!(constant(0.0), Expression::zero());
    assert_eq!(constant(1.0), Expression::one());
    let zero_tensor = Expression::Tensor(Box::new(TensorExpression::Zero));
    assert_eq!(x.duplicate().mul(zero_tensor.duplicate()).unwrap(), zero_tensor);
    let t = new_variable_tensor("t".to_string(), vec![Size::Many]);
    assert_eq!(t.duplicate().add(zero_tensor.duplicate()).unwrap(), t);
    assert_eq!(zero_tensor.duplicate().add(t.duplicate()).unwrap(), t);
    let a = Expression::from(ConstantValue::Tensor(vector(&[1.0, 2.0])));
    let b = Expression::from(ConstantValue::Matrix(numeric_matrix(Matrix::new(2, 2))));
    assert_eq!(a.add(b), Err(AlgebraError::VariantMismatch));
}
