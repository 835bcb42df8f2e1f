use linreg::{Dataset, Fixed, LinearRegression, ModelError, Scalar};

fn fx(s: &str) -> Fixed {
    Fixed::parse(s).unwrap()
}

fn as_f64(v: Fixed) -> f64 {
    v.micros as f64 / 1_000_000.0
}

fn records(rows: &[&[&str]]) -> Vec<Vec<String>> {
    rows.iter()
        .map(|r| r.iter().map(|f| f.to_string()).collect())
        .collect()
}

fn model(weights: &[&str], bias: &str, rate: &str, iterations: usize) -> LinearRegression<Fixed> {
    LinearRegression::with_parameters(
        weights.len(),
        fx(rate),
        iterations,
        weights.iter().map(|w| fx(w)).collect(),
        fx(bias),
    )
    .unwrap()
}

fn mse(m: &LinearRegression<Fixed>, data: &Dataset<Fixed>) -> f64 {
    let mut total = 0.0;
    for j in 0..data.len() {
        let p = data.point(j);
        let e = as_f64(m.predict(&p.features).unwrap()) - as_f64(p.label);
        total += e * e;
    }
    total / data.len() as f64
}

#[test]
fn fits_line_two_x_plus_one() {
    let data = Dataset::<Fixed>::from_records(&records(&[
        &["1.0", "3.0"],
        &["2.0", "5.0"],
        &["3.0", "7.0"],
    ]))
    .unwrap();
    let mut m = model(&["0.0"], "0.0", "0.01", 2000);
    assert_eq!(m.train(&data), Ok(()));
    let y = as_f64(m.predict(&vec![fx("4.0")]).unwrap());
    assert!((y - 9.0).abs() <= 0.2, "prediction {}", y);
}

#[test]
fn converges_on_noisy_line() {
    let noise = [0.05, -0.04, 0.02, -0.03, 0.01, 0.04, -0.05, 0.03, -0.02, 0.0];
    let rows: Vec<Vec<String>> = (0..10)
        .map(|i| {
            let x = i as f64 * 0.5;
            vec![format!("{:.6}", x), format!("{:.6}", 2.0 * x + 3.0 + noise[i])]
        })
        .collect();
    let data = Dataset::<Fixed>::from_records(&rows).unwrap();
    let mut m = model(&["0.0"], "0.0", "0.01", 250);
    let start = mse(&m, &data);
    let mut last = start;
    for _ in 0..20 {
        assert_eq!(m.train(&data), Ok(()));
        let now = mse(&m, &data);
        assert!(now <= last, "error rose from {} to {}", last, now);
        last = now;
    }
    assert!(last < start);
    assert!((as_f64(m.weights[0]) - 2.0).abs() <= 0.5, "weight {}", as_f64(m.weights[0]));
    assert!((as_f64(m.bias) - 3.0).abs() <= 0.5, "bias {}", as_f64(m.bias));
}

#[test]
fn training_is_reproducible() {
    let rows = records(&[&["1.5", "-2.0", "0.7"], &["0.3", "4.1", "2.2"], &["-1.0", "0.5", "1.1"]]);
    let run = || {
        let data = Dataset::<Fixed>::from_records(&rows).unwrap();
        let mut m = model(&["0.25", "0.75"], "0.5", "0.05", 300);
        m.train(&data).unwrap();
        let y = m.predict(&vec![fx("0.9"), fx("-0.4")]).unwrap();
        (m.weights.clone(), m.bias, y)
    };
    assert_eq!(run(), run());
}

#[test]
fn zero_iterations_keep_parameters() {
    let data = Dataset::<Fixed>::from_records(&records(&[&["1.0", "2.0"], &["2.0", "4.0"]])).unwrap();
    let mut m = model(&["0.3"], "0.6", "0.1", 0);
    assert_eq!(m.train(&data), Ok(()));
    assert_eq!(m.weights, vec![fx("0.3")]);
    assert_eq!(m.bias, fx("0.6"));
}

#[test]
fn predict_rejects_wrong_length() {
    let data = Dataset::<Fixed>::from_records(&records(&[&["1.0", "2.0", "3.0"]])).unwrap();
    assert_eq!(data.feature_count(), 2);
    let mut m = model(&["0.1", "0.2"], "0.0", "0.1", 3);
    m.train(&data).unwrap();
    assert_eq!(m.predict(&vec![fx("1")]), Err(ModelError::DimensionMismatch));
    assert_eq!(m.predict(&vec![fx("1"), fx("2"), fx("3")]), Err(ModelError::DimensionMismatch));
    assert_eq!(m.predict(&vec![]), Err(ModelError::DimensionMismatch));
    assert!(m.predict(&vec![fx("1"), fx("2")]).is_ok());
}

#[test]
fn predict_formula() {
    let m = model(&["2.0", "-1.0"], "0.5", "0.1", 1);
    assert_eq!(m.predict(&vec![fx("3.0"), fx("4.0")]), Ok(fx("2.5")));
}

#[test]
fn non_numeric_field_is_malformed() {
    let r = Dataset::<Fixed>::from_records(&records(&[&["abc", "1.0"]]));
    assert!(matches!(r, Err(ModelError::MalformedRecord)));
}

#[test]
fn short_record_is_malformed() {
    let r = Dataset::<Fixed>::from_records(&records(&[&["1.0", "2.0"], &["1.0"]]));
    assert!(matches!(r, Err(ModelError::MalformedRecord)));
    let r = Dataset::<Fixed>::from_records(&records(&[&["1.0"]]));
    assert!(matches!(r, Err(ModelError::MalformedRecord)));
}

#[test]
fn records_of_different_lengths_are_malformed() {
    let r = Dataset::<Fixed>::from_records(&records(&[&["1.0", "2.0"], &["1.0", "2.0", "3.0"]]));
    assert!(matches!(r, Err(ModelError::MalformedRecord)));
}

#[test]
fn records_become_points() {
    let data =
        Dataset::<Fixed>::from_records(&records(&[&["1.5", "2.5", "-3"], &["4", "5", "6.25"]])).unwrap();
    assert_eq!(data.len(), 2);
    assert_eq!(data.feature_count(), 2);
    assert_eq!(data.point(0).features, vec![Fixed { micros: 1_500_000 }, Fixed { micros: 2_500_000 }]);
    assert_eq!(data.point(0).label, Fixed { micros: -3_000_000 });
    assert_eq!(data.point(1).features, vec![Fixed { micros: 4_000_000 }, Fixed { micros: 5_000_000 }]);
    assert_eq!(data.point(1).label, Fixed { micros: 6_250_000 });
}

#[test]
fn empty_dataset_is_refused() {
    let data = Dataset::<Fixed>::from_records(&Vec::new()).unwrap();
    assert_eq!(data.len(), 0);
    assert_eq!(data.feature_count(), 0);
    let mut m = model(&["0.4"], "0.2", "0.1", 10);
    assert_eq!(m.train(&data), Err(ModelError::EmptyDataset));
    assert_eq!(m.weights, vec![fx("0.4")]);
    assert_eq!(m.bias, fx("0.2"));
}

#[test]
fn train_rejects_dimension_mismatch() {
    let data = Dataset::<Fixed>::from_records(&records(&[&["1.0", "2.0", "3.0"]])).unwrap();
    let mut m = model(&["0.4"], "0.2", "0.1", 10);
    assert_eq!(m.train(&data), Err(ModelError::DimensionMismatch));
    assert_eq!(m.weights, vec![fx("0.4")]);
    assert_eq!(m.bias, fx("0.2"));
}

#[test]
fn constructor_checks_hyperparameters() {
    let r = LinearRegression::with_parameters(0, fx("0.1"), 5, vec![], fx("0"));
    assert!(matches!(r, Err(ModelError::InvalidHyperparameter)));
    let r = LinearRegression::with_parameters(1, fx("0"), 5, vec![fx("0")], fx("0"));
    assert!(matches!(r, Err(ModelError::InvalidHyperparameter)));
    let r = LinearRegression::with_parameters(1, fx("-0.5"), 5, vec![fx("0")], fx("0"));
    assert!(matches!(r, Err(ModelError::InvalidHyperparameter)));
    let r = LinearRegression::with_parameters(2, fx("0.1"), 5, vec![fx("0")], fx("0"));
    assert!(matches!(r, Err(ModelError::DimensionMismatch)));
    let m = LinearRegression::with_parameters(1, fx("0.1"), 0, vec![fx("0.7")], fx("0.2")).unwrap();
    assert_eq!(m.weights, vec![fx("0.7")]);
    assert_eq!(m.bias, fx("0.2"));
    assert_eq!(m.iterations, 0);
}

#[test]
fn random_start_lies_in_unit_interval() {
    let m = LinearRegression::new(5, fx("0.01"), 100).unwrap();
    assert_eq!(m.weights.len(), 5);
    for w in &m.weights {
        assert!(w.micros >= 0 && w.micros < 1_000_000);
    }
    assert!(m.bias.micros >= 0 && m.bias.micros < 1_000_000);
    assert_eq!(m.learning_rate, fx("0.01"));
    assert_eq!(m.iterations, 100);
    assert!(matches!(LinearRegression::new(0, fx("0.01"), 1), Err(ModelError::InvalidHyperparameter)));
    assert!(matches!(LinearRegression::new(2, fx("0"), 1), Err(ModelError::InvalidHyperparameter)));
}

#[test]
fn random_starts_differ() {
    let a = LinearRegression::new(8, fx("0.01"), 1).unwrap();
    let b = LinearRegression::new(8, fx("0.01"), 1).unwrap();
    assert_ne!((a.weights, a.bias), (b.weights, b.bias));
}

#[test]
fn each_weight_follows_its_own_gradient() {
    // Only the first feature carries signal: one round moves the two weights
    // by different amounts and moves the bias too.
    let data =
        Dataset::<Fixed>::from_records(&records(&[&["1.0", "0.0", "2.0"], &["0.0", "1.0", "0.0"]])).unwrap();
    let mut m = model(&["0.0", "0.0"], "0.0", "1.0", 1);
    m.train(&data).unwrap();
    // residuals -2 and 0; gradients: first weight -2, second 0, bias -2; halved.
    assert_eq!(m.weights, vec![fx("1"), fx("0")]);
    assert_eq!(m.bias, fx("1"));
}

#[test]
fn one_round_exact() {
    let data = Dataset::<Fixed>::from_records(&records(&[&["1", "3"], &["2", "5"]])).unwrap();
    let mut m = model(&["0"], "0", "0.1", 1);
    assert_eq!(m.train(&data), Ok(()));
    // residuals -3 and -5; weight gradient -13, bias gradient -8; times 0.1, halved.
    assert_eq!(m.weights, vec![fx("0.65")]);
    assert_eq!(m.bias, fx("0.4"));
    assert_eq!(m.predict(&vec![fx("2")]), Ok(fx("1.7")));
}
