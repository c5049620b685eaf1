use ffnet::Error;
use ffnet::matrix::Matrix;
use ffnet::model::{FieldsDescribe, ModelData, Weights};

fn b(x: f32) -> u32 {
    x.to_bits()
}

fn f(x: u32) -> f32 {
    f32::from_bits(x)
}

fn mat(rows: Vec<Vec<f32>>) -> Matrix {
    let raw: Vec<Vec<u32>> = rows
        .into_iter()
        .map(|r| r.into_iter().map(|x| x.to_bits()).collect())
        .collect();
    Matrix::from_rows(raw).expect("rows must form a non-empty rectangle")
}

fn table(entries: &[(&str, f32)]) -> Vec<(String, u32)> {
    entries.iter().map(|(k, v)| (k.to_string(), v.to_bits())).collect()
}

/// A two-feature model whose arithmetic stays exact in binary32:
/// identity kernels on the hidden layers, a summing output layer.
fn test_model() -> ModelData {
    ModelData {
        norm: FieldsDescribe::new(
            table(&[("a", 1.0), ("b", 2.0)]),
            table(&[("a", 2.0), ("b", 4.0)]),
        ),
        weights: Weights {
            l0_kernel: mat(vec![vec![1.0, 0.0], vec![0.0, 1.0]]),
            l0_bias: vec![b(0.5), b(-3.0)],
            l1_kernel: mat(vec![vec![1.0, 0.0], vec![0.0, 1.0]]),
            l1_bias: vec![b(0.0), b(0.0)],
            l2_kernel: mat(vec![vec![1.0], vec![1.0]]),
            l2_bias: vec![b(0.25)],
        },
        fields: vec!["a".to_string(), "b".to_string()],
        alpha: b(0.5),
    }
}

#[test]
fn norm_exact_values_in_field_order() {
    let model = test_model();
    let input = table(&[("a", 5.0), ("b", 0.0)]);
    let row = model.norm(&input).unwrap();
    assert_eq!((1, 2), row.size());
    assert_eq!(f(row.get(0, 0)), (5.0 - 1.0) / 2.0);
    assert_eq!(f(row.get(0, 1)), (0.0 - 2.0) / 4.0);
}

#[test]
fn norm_ignores_input_entry_order() {
    let model = test_model();
    let forward = model.norm(&table(&[("a", 5.0), ("b", 0.0)])).unwrap();
    let backward = model.norm(&table(&[("b", 0.0), ("a", 5.0)])).unwrap();
    assert_eq!(forward.size(), backward.size());
    for j in 0..2 {
        assert_eq!(forward.get(0, j), backward.get(0, j));
    }
}

#[test]
fn norm_missing_input_feature_reads_zero() {
    let model = test_model();
    let row = model.norm(&table(&[("b", 4.0)])).unwrap();
    assert_eq!(f(row.get(0, 0)), (0.0 - 1.0) / 2.0);
    assert_eq!(f(row.get(0, 1)), (4.0 - 2.0) / 4.0);
    // An unknown key changes nothing: it is never looked up.
    let with_typo = model.norm(&table(&[("b", 4.0), ("c", 9.0)])).unwrap();
    assert_eq!(row.get(0, 0), with_typo.get(0, 0));
    assert_eq!(row.get(0, 1), with_typo.get(0, 1));
}

#[test]
fn norm_missing_std_names_the_field() {
    let mut model = test_model();
    model.norm = FieldsDescribe::new(
        table(&[("a", 1.0), ("b", 2.0)]),
        table(&[("a", 2.0)]),
    );
    for input in [table(&[("a", 5.0), ("b", 0.0)]), table(&[]), table(&[("b", 1.0)])] {
        match model.norm(&input) {
            Err(Error::MissingStdData(name)) => assert_eq!(name, "b"),
            other => panic!("expected a missing standard deviation, got {:?}", other.err()),
        }
    }
}

#[test]
fn norm_missing_mean_names_the_field() {
    let mut model = test_model();
    model.norm = FieldsDescribe::new(
        table(&[("b", 2.0)]),
        table(&[("a", 2.0), ("b", 4.0)]),
    );
    match model.norm(&table(&[("a", 5.0)])) {
        Err(Error::MissingMeanData(name)) => assert_eq!(name, "a"),
        other => panic!("expected a missing mean, got {:?}", other.err()),
    }
}

#[test]
fn norm_reports_first_field_in_order_std_before_mean() {
    // Field "a" lacks its mean, field "b" lacks its standard deviation:
    // the walk meets "a" first, so its mean is reported.
    let mut model = test_model();
    model.norm = FieldsDescribe::new(
        table(&[("b", 2.0)]),
        table(&[("a", 2.0)]),
    );
    match model.norm(&table(&[])) {
        Err(Error::MissingMeanData(name)) => assert_eq!(name, "a"),
        other => panic!("expected a missing mean, got {:?}", other.err()),
    }
    // For one and the same field, the standard deviation is looked up first.
    model.norm = FieldsDescribe::new(table(&[]), table(&[]));
    match model.norm(&table(&[])) {
        Err(Error::MissingStdData(name)) => assert_eq!(name, "a"),
        other => panic!("expected a missing standard deviation, got {:?}", other.err()),
    }
}

#[test]
fn predict_exact_pipeline() {
    let model = test_model();
    // Stage by stage: [2.0, -0.5] + bias -> [2.5, -3.5]; leaky ReLU with
    // slope 0.5 -> [2.5, -1.75]; identity layer, ReLU -> [2.5, -0.875];
    // summing layer + 0.25 -> 1.875.
    let input = mat(vec![vec![2.0, -0.5]]);
    let out = model.predict(&input).unwrap();
    assert_eq!(f(out), 1.875);
}

#[test]
fn predict_takes_top_left_cell_of_batched_input() {
    let model = test_model();
    let input = mat(vec![vec![2.0, -0.5], vec![0.0, 0.0]]);
    let out = model.predict(&input).unwrap();
    assert_eq!(f(out), 1.875);
}

#[test]
fn predict_propagates_dimension_mismatch() {
    let model = test_model();
    let wide = mat(vec![vec![1.0, 2.0, 3.0]]);
    match model.predict(&wide) {
        Err(Error::DimensionMismatch { expected, actual }) => {
            assert_eq!(expected, 3);
            assert_eq!(actual, 2);
        },
        other => panic!("expected a dimension mismatch, got {:?}", other.map(f)),
    }
}

#[test]
fn norm_predict_composes_both_stages() {
    let model = test_model();
    let input = table(&[("a", 5.0), ("b", 0.0)]);
    let direct = {
        let row = model.norm(&input).unwrap();
        model.predict(&row).unwrap()
    };
    let composed = model.norm_predict(&input).unwrap();
    assert_eq!(direct, composed);
    assert_eq!(f(composed), 1.875);
    // An error from the first stage short-circuits.
    let mut broken = test_model();
    broken.norm = FieldsDescribe::new(table(&[]), table(&[]));
    assert!(matches!(broken.norm_predict(&input), Err(Error::MissingStdData(_))));
}
