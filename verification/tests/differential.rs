use opensrdk_linear_algebra::Matrix;
use opensrdk_symbolic_computation::NumericMatrix;
use opensrdk_symbolic_computation::new_symbol;
use opensrdk_symbolic_computation::new_variable_tensor;
use opensrdk_symbolic_computation::AlgebraError;
use opensrdk_symbolic_computation::ConstantValue;
use opensrdk_symbolic_computation::Expression;
use opensrdk_symbolic_computation::MatrixExpression;
use opensrdk_symbolic_computation::MatrixValue;
use opensrdk_symbolic_computation::Ratio;
use opensrdk_symbolic_computation::Scalar;
use opensrdk_symbolic_computation::Size;
use opensrdk_symbolic_computation::TensorExpression;

fn numeric_matrix(cells: Matrix) -> NumericMatrix {
    NumericMatrix::new(MatrixValue { cells }).unwrap()
}

fn value(v: f64) -> ConstantValue {
    let cell = MatrixValue { cells: Matrix::from(1, vec![v]).unwrap() };
    ConstantValue::Scalar(Scalar::new(cell).unwrap())
}

fn constant(v: f64) -> Expression {
    Expression::from(value(v))
}

fn number(e: &Expression) -> f64 {
    match e {
        Expression::Constant(ConstantValue::Scalar(s)) => s.cell().cells[(0, 0)],
        other => panic!("not a number: {:?}", other),
    }
}

fn symbol(name: &str) -> Expression {
    new_symbol(name.to_string())
}

fn bind(pairs: &[(&str, f64)]) -> Vec<(String, ConstantValue)> {
    pairs.iter().map(|(n, v)| (n.to_string(), value(*v))).collect()
}

fn no_names() -> Vec<(String, String)> {
    Vec::new()
}

#[test]
fn differential_it_works() {
    let x = new_symbol("x".to_string());

    let expression = x.duplicate().pow(constant(2.0));
    let diff = expression.differential(&["x"]).unwrap().remove(0);

    println!("{:#?}", diff);
}

#[test]
fn differential_it_works2() {
    let x = new_symbol("x".to_string());

    let expression = constant(2.0).mul(x.duplicate()).unwrap().exp();
    let diff = expression.differential(&["x"]).unwrap().remove(0);

    println!("{:#?}", diff);
}

#[test]
fn it_works3() {
    let x = new_symbol("x".to_string());

    let expression = x.duplicate().sin().add(x.duplicate().cos().exp()).unwrap();
    let diff = expression.differential(&["x"]).unwrap().remove(0);

    println!("{:#?}", diff);
}

#[test]
fn it_works4() {
    let x = new_symbol("x".to_string());

    let expression = x.duplicate().pow(constant(2.0));
    let diff = expression.differential(&["x"]).unwrap().remove(0);

    println!("{:#?}", expression.assign(&bind(&[("x", 3.0)])));

    println!("{:#?}", diff.assign(&bind(&[("x", 3.0)])));
}

#[test]
fn it_works5() {
    let x = new_symbol("x".to_string());
    let mu = new_symbol("mu".to_string());
    let sigma = new_symbol("sigma".to_string());
    let expression = x
        .sub(mu)
        .unwrap()
        .pow(constant(2.0))
        .neg()
        .div(constant(2.0).mul(sigma.pow(constant(2.0))).unwrap())
        .unwrap();
    let diff_x = expression.differential(&["x"]).unwrap().remove(0);
    let diff_mu = expression.differential(&["mu"]).unwrap().remove(0);
    let diff_sigma = expression.differential(&["sigma"]).unwrap().remove(0);

    let tex_symbols: Vec<(String, String)> =
        vec![("x", "x"), ("mu", r"\mu"), ("sigma", r"\Sigma")]
            .into_iter()
            .map(|(a, b)| (a.to_string(), b.to_string()))
            .collect();

    println!("{:#?}", diff_x.tex_code(&tex_symbols));
    println!("{:#?}", diff_mu.tex_code(&tex_symbols));
    println!("{:#?}", diff_sigma.tex_code(&tex_symbols));
}

#[test]
fn variable_it_works2() {
    let x = new_symbol("x".to_string());
    let mu = new_symbol("mu".to_string());
    let sigma = new_symbol("sigma".to_string());
    let expression = x.mul(mu).unwrap().div(sigma).unwrap();
    let diff_x = expression.differential(&["x"]).unwrap().remove(0);
    let diff_mu = expression.differential(&["mu"]).unwrap().remove(0);
    let diff_sigma = expression.differential(&["sigma"]).unwrap().remove(0);
    let diff_anpan = expression.differential(&["anpan"]).unwrap().remove(0);

    let tex_symbols: Vec<(String, String)> =
        vec![("x", "x"), ("mu", r"\mu"), ("sigma", r"\Sigma")]
            .into_iter()
            .map(|(a, b)| (a.to_string(), b.to_string()))
            .collect();

    println!("{:#?}", diff_x.tex_code(&tex_symbols));
    println!("{:#?}", diff_mu.tex_code(&tex_symbols));
    println!("{:#?}", diff_sigma.tex_code(&tex_symbols));
    println!("{:#?}", diff_anpan.tex_code(&tex_symbols));
}

#[test]
fn product_rule_at_a_point() {
    let f = symbol("x").mul(symbol("y")).unwrap();
    let d = f.differential(&["x", "y"]).unwrap();
    assert_eq!(d.len(), 2);
    let at = bind(&[("x", 2.0), ("y", 3.0)]);
    assert_eq!(number(&d[0].assign(&at).unwrap()), 3.0);
    assert_eq!(number(&d[1].assign(&at).unwrap()), 2.0);
}

#[test]
fn quotient_rule_at_a_point() {
    let f = symbol("x").div(symbol("y")).unwrap();
    let d = f.differential(&["x", "y"]).unwrap();
    let at = bind(&[("x", 6.0), ("y", 2.0)]);
    assert_eq!(number(&d[0].assign(&at).unwrap()), 0.5);
    assert_eq!(number(&d[1].assign(&at).unwrap()), -1.5);
}

#[test]
fn derivative_of_a_sum_is_the_sum_of_the_derivatives() {
    let a = symbol("x").mul(symbol("x")).unwrap();
    let b = symbol("x").sin();
    let sum = a.duplicate().add(b.duplicate()).unwrap();
    let whole = sum.derivative(&"x".to_string()).unwrap();
    let parts = a
        .derivative(&"x".to_string())
        .unwrap()
        .add(b.derivative(&"x".to_string()).unwrap())
        .unwrap();
    assert_eq!(whole, parts);
    let with_zero = a.duplicate().add(Expression::zero()).unwrap();
    assert_eq!(with_zero, a);
    assert_eq!(
        with_zero.derivative(&"x".to_string()).unwrap(),
        a.derivative(&"x".to_string()).unwrap()
    );
}

#[test]
fn derivative_of_a_constant_is_zero() {
    let d = constant(4.5).differential(&["x", "y", "z"]).unwrap();
    assert_eq!(d.len(), 3);
    for e in d.iter() {
        assert_eq!(*e, Expression::zero());
    }
    let m = Expression::from(ConstantValue::Matrix(numeric_matrix(Matrix::new(2, 2))));
    let d = m.differential(&["x"]).unwrap();
    assert_eq!(d[0], Expression::Tensor(Box::new(TensorExpression::Zero)));
    assert_eq!(constant(1.0).differential(&[]).unwrap().len(), 0);
}

#[test]
fn derivative_of_a_symbol_by_itself() {
    let x = symbol("x");
    assert_eq!(x.derivative(&"x".to_string()).unwrap(), Expression::one());
    assert_eq!(x.derivative(&"y".to_string()).unwrap(), Expression::zero());
    let t = new_variable_tensor("t".to_string(), vec![Size::Many, Size::Many]);
    let d = t.derivative(&"t".to_string()).unwrap();
    let deltas = Expression::Tensor(Box::new(TensorExpression::KroneckerDeltas(vec![
        (0, 2),
        (1, 3),
    ])));
    assert_eq!(d, deltas);
    let at = bind(&[("x", 2.0)]);
    assert_eq!(d.assign(&at).unwrap(), deltas);
    assert_eq!(
        t.derivative(&"u".to_string()).unwrap(),
        Expression::Tensor(Box::new(TensorExpression::Zero))
    );
}

#[test]
fn chain_rule_of_the_functions() {
    let x = "x".to_string();
    let at = bind(&[("x", 2.0)]);
    let d = symbol("x").exp().derivative(&x).unwrap();
    assert_eq!(d, symbol("x").exp());
    let d = symbol("x").sin().derivative(&x).unwrap();
    assert_eq!(d, symbol("x").cos());
    let d = symbol("x").cos().derivative(&x).unwrap();
    assert_eq!(d, symbol("x").sin().neg());
    let d = symbol("x").ln().derivative(&x).unwrap();
    assert_eq!(number(&d.assign(&at).unwrap()), 0.5);
    let d = symbol("x").tan().derivative(&x).unwrap();
    assert_eq!(
        d,
        Expression::one().div(symbol("x").cos().mul(symbol("x").cos()).unwrap()).unwrap()
    );
    let d = symbol("x").abs().derivative(&x).unwrap();
    assert_eq!(d, symbol("x").div(symbol("x").abs()).unwrap());
    let d = symbol("x").neg().derivative(&x).unwrap();
    assert_eq!(number(&d), -1.0);
    let t = new_variable_tensor("t".to_string(), vec![Size::Many]);
    assert_eq!(t.duplicate().neg(), Expression::Neg(Box::new(t.duplicate())));
    assert_eq!(t.duplicate().neg().neg(), t);
    let d = symbol("x").log(symbol("y")).derivative(&"y".to_string()).unwrap();
    let first = Expression::one().div(symbol("y").mul(symbol("x").ln()).unwrap()).unwrap();
    let square = symbol("x").ln().mul(symbol("x").ln()).unwrap();
    let second = Expression::zero().div(symbol("x").mul(square).unwrap()).unwrap();
    assert_eq!(d, first.sub(second).unwrap());
    let d = symbol("x").pow(symbol("y")).derivative(&x).unwrap();
    let inner = symbol("y").div(symbol("x")).unwrap();
    assert_eq!(d, symbol("x").pow(symbol("y")).mul(inner).unwrap());
}

#[test]
fn power_with_an_exact_exponent() {
    let x = "x".to_string();
    let cube = symbol("x").powr(Ratio { num: 3, den: 1 });
    let d = cube.derivative(&x).unwrap();
    assert_eq!(
        d,
        constant(3.0).mul(symbol("x").powr(Ratio { num: 2, den: 1 })).unwrap()
    );
    let root = symbol("x").powr(Ratio { num: 1, den: 2 });
    let d = root.derivative(&x).unwrap();
    assert_eq!(
        d,
        constant(0.5).mul(symbol("x").powr(Ratio { num: -1, den: 2 })).unwrap()
    );
    assert_eq!(symbol("x").powr(Ratio { num: 1, den: 1 }), symbol("x"));
    assert_eq!(symbol("x").powr(Ratio { num: 5, den: 5 }), symbol("x"));
    assert_eq!(symbol("x").powr(Ratio { num: 0, den: 3 }), Expression::one());
    let square = symbol("x").powr(Ratio { num: 2, den: 1 });
    assert_eq!(square.derivative(&x).unwrap(), constant(2.0).mul(symbol("x")).unwrap());
    let lowest = symbol("x").powr(Ratio { num: i64::MIN, den: 1 });
    assert_eq!(lowest.derivative(&x), Err(AlgebraError::Unimplemented));
}

#[test]
fn derivative_of_an_entry_is_not_provided() {
    let t = TensorExpression::Symbol("t".to_string(), vec![Size::Many]);
    let e = Expression::element(t, vec![0]).unwrap();
    assert_eq!(e.derivative(&"t".to_string()), Err(AlgebraError::Unimplemented));
    assert_eq!(e.differential(&["t"]), Err(AlgebraError::Unimplemented));
}

#[test]
fn scalar_gaussian_gradients() {
    let half = constant(-0.5);
    let d = symbol("x").sub(symbol("mu")).unwrap();
    let f = half
        .mul(d.duplicate().mul(symbol("lambda")).unwrap().mul(d).unwrap())
        .unwrap();
    let g = f.differential(&["x", "mu", "lambda"]).unwrap();
    let at = bind(&[("x", 3.0), ("mu", 1.0), ("lambda", 2.0)]);
    assert_eq!(number(&g[0].assign(&at).unwrap()), -4.0);
    assert_eq!(number(&g[1].assign(&at).unwrap()), 4.0);
    assert_eq!(number(&g[2].assign(&at).unwrap()), -2.0);
    assert_eq!(number(&f.assign(&at).unwrap()), -4.0);
}

#[test]
fn derivative_of_an_inverse_and_a_determinant() {
    let m = MatrixExpression::Mat(Box::new(TensorExpression::Symbol(
        "m".to_string(),
        vec![Size::Many, Size::Many],
    )));
    let inverse = m.duplicate().inv().unwrap();
    assert_eq!(inverse, MatrixExpression::Inverse(Box::new(m.duplicate())));
    assert_eq!(inverse.duplicate().inv().unwrap(), m);
    let other = inverse.derivative(&"x".to_string()).unwrap();
    assert_eq!(other, TensorExpression::Zero);
    let own = inverse.derivative(&"m".to_string()).unwrap();
    let inv_t = TensorExpression::Mat(Box::new(inverse.duplicate()));
    let expected = inv_t
        .duplicate()
        .neg()
        .inner_prod(TensorExpression::KroneckerDeltas(vec![(0, 2), (1, 3)]), &[[1, 0]])
        .unwrap()
        .inner_prod(inv_t.duplicate(), &[[1, 0]])
        .unwrap();
    assert_eq!(own, expected);
    assert_eq!(
        own,
        TensorExpression::InnerProd {
            terms: vec![
                TensorExpression::KroneckerDeltas(vec![(0, 2), (1, 3)]),
                TensorExpression::Neg(Box::new(inv_t.duplicate())),
                inv_t.duplicate(),
            ],
            rank_combinations: vec![vec![(0, 1), (1, 0)], vec![(1, 1)], vec![(0, 0)]],
        }
    );
    assert_eq!(own.sizes(), vec![Size::Many, Size::Many, Size::Many, Size::Many]);
    let direction = TensorExpression::Symbol("d".to_string(), vec![Size::Many, Size::Many]);
    let along = MatrixExpression::diff_inv(&m, Ok(direction)).unwrap();
    assert_eq!(along.sizes(), vec![Size::Many, Size::Many]);
    assert_eq!(
        MatrixExpression::diff_inv(&m, m.derivative(&"m".to_string())).unwrap(),
        expected
    );
    let det = m.duplicate().det();
    assert_eq!(det.duplicate().inv(), Err(AlgebraError::VariantMismatch));
    let d = det.derivative(&"m".to_string()).unwrap();
    match d {
        TensorExpression::MulScalarLhs(factor, _) => {
            assert_eq!(
                *factor,
                Expression::Tensor(Box::new(TensorExpression::Det(Box::new(m.duplicate()))))
            );
        }
        other => panic!("unexpected {:?}", other),
    }
    let all = m.differential(&["m", "x"]).unwrap();
    assert_eq!(all[0], TensorExpression::KroneckerDeltas(vec![(0, 2), (1, 3)]));
    assert_eq!(all[1], TensorExpression::Zero);
    let t = m.duplicate().t();
    assert_eq!(t.duplicate().t(), m);
    assert_eq!(no_names().len(), 0);
}

#[test]
fn the_derivative_of_a_symbol_keeps_the_sizes_of_its_axes() {
    let single = new_variable_tensor("x".to_string(), vec![Size::One]);
    let d = single.differential(&["x"]).unwrap();
    assert_eq!(
        d[0],
        Expression::Tensor(Box::new(TensorExpression::KroneckerDeltas(vec![(1, 1)])))
    );
    assert_eq!(d[0].sizes(), vec![Size::One, Size::One]);
    let mixed = new_variable_tensor("y".to_string(), vec![Size::Many, Size::One, Size::Many]);
    let d = mixed.differential(&["y", "x"]).unwrap();
    assert_eq!(
        d[0],
        Expression::Tensor(Box::new(TensorExpression::KroneckerDeltas(vec![
            (0, 3),
            (4, 4),
            (2, 5)
        ])))
    );
    assert_eq!(
        d[0].sizes(),
        vec![Size::Many, Size::One, Size::Many, Size::Many, Size::One, Size::Many]
    );
    let square = new_variable_tensor("z".to_string(), vec![Size::Many, Size::Many]);
    let d = square.differential(&["z"]).unwrap();
    assert_eq!(d[0].sizes(), vec![Size::Many; 4]);
}
