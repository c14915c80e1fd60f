use opensrdk_linear_algebra::sparse::SparseTensor;
use opensrdk_linear_algebra::Matrix;
use opensrdk_symbolic_computation::NumericTensor;
use opensrdk_symbolic_computation::NumericMatrix;
use opensrdk_symbolic_computation::new_symbol;
use opensrdk_symbolic_computation::next_char;
use opensrdk_symbolic_computation::AlgebraError;
use opensrdk_symbolic_computation::BracketsLevel;
use opensrdk_symbolic_computation::ConstantValue;
use opensrdk_symbolic_computation::Expression;
use opensrdk_symbolic_computation::MatrixExpression;
use opensrdk_symbolic_computation::MatrixValue;
use opensrdk_symbolic_computation::Ratio;
use opensrdk_symbolic_computation::Scalar;
use opensrdk_symbolic_computation::Size;
use opensrdk_symbolic_computation::TensorExpression;
use opensrdk_symbolic_computation::TensorValue;
use opensrdk_symbolic_computation::TranscendentalExpression;

fn numeric_tensor(cells: SparseTensor) -> NumericTensor {
    NumericTensor::new(TensorValue { cells }).unwrap()
}

fn numeric_matrix(cells: Matrix) -> NumericMatrix {
    NumericMatrix::new(MatrixValue { cells }).unwrap()
}

fn s(name: &str) -> Expression {
    new_symbol(name.to_string())
}

fn constant(v: f64) -> Expression {
    let cell = MatrixValue { cells: Matrix::from(1, vec![v]).unwrap() };
    Expression::from(ConstantValue::Scalar(Scalar::new(cell).unwrap()))
}

fn square(name: &str) -> TensorExpression {
    TensorExpression::Symbol(name.to_string(), vec![Size::Many, Size::Many])
}

fn tex(e: &Expression) -> String {
    e.tex_code(&Vec::new()).unwrap()
}

fn many(count: usize) -> TensorExpression {
    let terms = (0..count)
        .map(|k| TensorExpression::Symbol(format!("t{}", k), vec![Size::Many]))
        .collect();
    let rows = (0..count).map(|k| vec![(0, k + 100)]).collect();
    TensorExpression::InnerProd { terms, rank_combinations: rows }
}

#[test]
fn a_nested_difference_on_the_right_is_in_brackets() {
    let nested = s("a").sub(s("b").sub(s("c")).unwrap()).unwrap();
    assert_eq!(tex(&nested), r"{{a} - \left({{b} - {c}}\right)}");
    let left = s("a").sub(s("b")).unwrap().sub(s("c")).unwrap();
    assert_eq!(tex(&left), r"{{{a} - {b}} - {c}}");
    let sum = s("a").sub(s("b").add(s("c")).unwrap()).unwrap();
    assert_eq!(tex(&sum), r"{{a} - \left({{b} + {c}}\right)}");
    let product = s("a").sub(s("b").mul(s("c")).unwrap()).unwrap();
    assert_eq!(tex(&product), r"{{a} - {{b} \times {c}}}");
}

#[test]
fn markup_of_the_operators() {
    assert_eq!(tex(&s("a")), "{a}");
    assert_eq!(tex(&constant(2.5)), "{2.5}");
    assert_eq!(tex(&s("a").add(s("b")).unwrap()), "{{a} + {b}}");
    let product = s("a").add(s("b")).unwrap().mul(s("c")).unwrap();
    assert_eq!(tex(&product), r"{\left({{a} + {b}}\right) \times {c}}");
    assert_eq!(tex(&s("a").div(s("b")).unwrap()), r"\frac{{a}}{{b}}");
    let fraction = s("a").add(s("b")).unwrap().div(s("c")).unwrap().mul(s("d")).unwrap();
    assert_eq!(tex(&fraction), r"{\frac{{{a} + {b}}}{{c}} \times {d}}");
    assert_eq!(tex(&s("a").add(s("b")).unwrap().neg()), r"{-\left({{a} + {b}}\right)}");
    assert_eq!(tex(&s("a").neg()), "{-{a}}");
    assert_eq!(tex(&s("x").powr(Ratio { num: 1, den: 2 })), "{{x}}^{1/2}");
    assert_eq!(tex(&s("x").powr(Ratio { num: -3, den: 1 })), "{{x}}^{-3}");
    let power = s("a").mul(s("b")).unwrap().powr(Ratio { num: 2, den: 1 });
    assert_eq!(tex(&power), r"{\left({{a} \times {b}}\right)}^{2}");
}

#[test]
fn markup_of_the_functions() {
    assert_eq!(tex(&s("a").exp()), r"\exp{{a}}");
    assert_eq!(tex(&s("a").add(s("b")).unwrap().exp()), r"\exp{\left({{a} + {b}}\right)}");
    assert_eq!(tex(&s("a").sin()), r"\sin{{a}}");
    assert_eq!(tex(&s("a").cos()), r"\cos{{a}}");
    assert_eq!(tex(&s("a").tan()), r"\tan{{a}}");
    assert_eq!(tex(&s("a").ln()), r"\ln{{a}}");
    assert_eq!(tex(&s("a").abs()), r"\left|{a}\right|");
    assert_eq!(tex(&s("a").pow(s("b"))), "{{a}}^{{b}}");
    assert_eq!(tex(&s("a").log(s("b"))), r"\log_{{a}}{{b}}");
    assert_eq!(
        TranscendentalExpression::tex_code_exp(&s("a"), &Vec::new()).unwrap(),
        r"\exp{{a}}"
    );
    assert_eq!(Expression::tex_code_neg(&s("a"), &Vec::new()).unwrap(), "{-{a}}");
    assert_eq!(
        Expression::tex_code_sub(&s("a"), &s("b"), &Vec::new(), BracketsLevel::ForMul).unwrap(),
        r"\left({{a} - {b}}\right)"
    );
    assert_eq!(
        Expression::tex_code_sub(&s("a"), &s("b"), &Vec::new(), BracketsLevel::Free).unwrap(),
        "{{a} - {b}}"
    );
}

#[test]
fn symbols_are_shown_under_their_names() {
    let names = vec![
        ("mu".to_string(), r"\mu".to_string()),
        ("mu".to_string(), "m".to_string()),
    ];
    let e = s("mu").add(s("x")).unwrap();
    assert_eq!(e.tex_code(&names).unwrap(), r"{{\mu} + {x}}");
}

#[test]
fn markup_of_tensors() {
    let product = square("a").inner_prod(square("b"), &[[1, 0]]).unwrap();
    assert_eq!(
        product.tex_code(&Vec::new()).unwrap(),
        r"{\sum_{i}{a}_{[1] = i}{b}_{[0] = i}}"
    );
    let three = product.inner_prod(square("c"), &[[1, 0]]).unwrap();
    assert_eq!(
        three.tex_code(&Vec::new()).unwrap(),
        r"{\sum_{i, j}{a}_{[1] = i}{b}_{[0] = i, [1] = j}{c}_{[0] = j}}"
    );
    let deltas = TensorExpression::KroneckerDeltas(vec![(0, 1), (2, 13)]);
    assert_eq!(
        deltas.tex_code(&Vec::new()).unwrap(),
        r"{\delta_{[0], [1]}\delta_{[2], [13]}}"
    );
    assert_eq!(TensorExpression::Zero.tex_code(&Vec::new()).unwrap(), "{0}");
    let scaled = TensorExpression::MulScalarLhs(Box::new(s("k")), Box::new(square("a")));
    assert_eq!(scaled.tex_code(&Vec::new()).unwrap(), "{{k} {a}}");
    let entry = Expression::element(square("t"), vec![0, 2]).unwrap();
    assert_eq!(tex(&entry), "{t}_{1, 3}");
    let m = MatrixExpression::Mat(Box::new(square("m")));
    let inverse = Expression::Matrix(Box::new(m.duplicate().inv().unwrap()));
    assert_eq!(tex(&inverse), "{{m}}^{-1}");
    let transposed = Expression::Matrix(Box::new(m.duplicate().t()));
    assert_eq!(tex(&transposed), r"{{m}}^{\top}");
    let determinant = Expression::Matrix(Box::new(m.det()));
    assert_eq!(tex(&determinant), r"\left|{m}\right|");
    let numeric = TensorExpression::Constant(numeric_tensor(SparseTensor::new(vec![2])));
    assert_eq!(numeric.tex_code(&Vec::new()).unwrap(), r"{\mathbf{T}}");
}

#[test]
fn index_letters_end_with_the_alphabet() {
    assert_eq!(next_char('i', 0), Some('i'));
    assert_eq!(next_char('i', 1), Some('j'));
    assert_eq!(next_char('i', 17), Some('z'));
    assert_eq!(next_char('i', 18), None);
    assert_eq!(next_char('a', 25), Some('z'));
    assert_eq!(next_char('a', usize::MAX), None);
    assert_eq!(next_char('A', 1), None);
    let full = many(18).tex_code(&Vec::new()).unwrap();
    assert!(full.starts_with(r"{\sum_{i, j, k, l, m, n, o, p, q, r, s, t, u, v, w, x, y, z}{t0}_{[0] = i}"));
    assert!(full.ends_with("{t17}_{[0] = z}}"));
    assert_eq!(many(19).tex_code(&Vec::new()), Err(AlgebraError::IndexOutOfRange));
    let inside = Expression::Tensor(Box::new(many(19))).add(s("a")).unwrap();
    assert_eq!(inside.tex_code(&Vec::new()), Err(AlgebraError::IndexOutOfRange));
}

#[test]
fn source_text() {
    let e = s("a").add(s("b").mul(s("c")).unwrap()).unwrap();
    assert_eq!(e.rust_code().unwrap(), "a + (b * c)");
    assert_eq!(s("a").sub(s("b")).unwrap().neg().rust_code().unwrap(), "-(a - b)");
    assert_eq!(s("a").div(s("b")).unwrap().rust_code().unwrap(), "a / b");
    assert_eq!(s("a").cos().rust_code().unwrap(), "a.cos()");
    assert_eq!(s("a").add(s("b")).unwrap().cos().rust_code().unwrap(), "(a + b).cos()");
    assert_eq!(TranscendentalExpression::rust_code_cos(&s("a")).unwrap(), "a.cos()");
    assert_eq!(s("a").exp().rust_code().unwrap(), "a.exp()");
    assert_eq!(s("a").sin().rust_code().unwrap(), "a.sin()");
    assert_eq!(s("a").tan().rust_code().unwrap(), "a.tan()");
    assert_eq!(s("a").ln().rust_code().unwrap(), "a.ln()");
    assert_eq!(s("a").abs().rust_code().unwrap(), "a.abs()");
    assert_eq!(s("a").pow(s("b").add(s("c")).unwrap()).rust_code().unwrap(), "a.pow(b + c)");
    assert_eq!(s("a").log(s("b")).rust_code().unwrap(), "a.log(b)");
    assert_eq!(constant(2.5).mul(s("a")).unwrap().rust_code().unwrap(), "2.5f64 * a");
    assert_eq!(
        s("x").powr(Ratio { num: -3, den: 2 }).rust_code().unwrap(),
        "x.powr(-3, 2)"
    );
}

#[test]
fn source_text_of_tensors() {
    let product = square("a").inner_prod(square("b"), &[[1, 0]]).unwrap();
    assert_eq!(
        product.rust_code().unwrap(),
        "vec![a, b].inner_prod(&vec![vec![(1, 0)], vec![(0, 0)]])"
    );
    let three = product.inner_prod(square("c"), &[[1, 0]]).unwrap();
    assert_eq!(
        three.rust_code().unwrap(),
        "vec![a, b, c].inner_prod(&vec![vec![(1, 1)], vec![(0, 1), (1, 0)], vec![(0, 0)]])"
    );
    assert_eq!(
        TensorExpression::KroneckerDeltas(vec![(0, 1), (2, 3)]).rust_code().unwrap(),
        "TensorExpression::KroneckerDeltas(vec![(0, 1), (2, 3)])"
    );
    assert_eq!(TensorExpression::Zero.rust_code().unwrap(), "TensorExpression::Zero");
    let sum = square("a").add(square("b")).unwrap().neg();
    assert_eq!(sum.rust_code().unwrap(), "-(a + b)");
    let scaled = TensorExpression::MulScalarLhs(
        Box::new(s("k").add(s("l")).unwrap()),
        Box::new(square("a")),
    );
    assert_eq!(scaled.rust_code().unwrap(), "(k + l) * a");
    assert_eq!(scaled._rust_code(true).unwrap(), "((k + l) * a)");
    let entry = Expression::element(square("t"), vec![0, 2]).unwrap();
    assert_eq!(entry.rust_code().unwrap(), "t[&[0, 2]]");
    let m = MatrixExpression::Mat(Box::new(square("m")));
    let chain = Expression::Matrix(Box::new(m.inv().unwrap().t().det()));
    assert_eq!(chain.rust_code().unwrap(), "m.inv().t().det()");
}

#[test]
fn numeric_tensors_have_no_source_text() {
    let numeric = TensorExpression::Constant(numeric_tensor(SparseTensor::new(vec![2])));
    assert_eq!(numeric.rust_code(), Err(AlgebraError::Unimplemented));
    let inside = square("a").add(numeric).unwrap();
    assert_eq!(inside.rust_code(), Err(AlgebraError::Unimplemented));
    let m = Expression::from(ConstantValue::Matrix(numeric_matrix(Matrix::new(2, 2))));
    assert_eq!(m.rust_code(), Err(AlgebraError::Unimplemented));
}
