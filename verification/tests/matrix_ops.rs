use ffnet::Error;
use ffnet::matrix::Matrix;

fn b(x: f32) -> u32 {
    x.to_bits()
}

fn f(x: u32) -> f32 {
    f32::from_bits(x)
}

fn mat(rows: Vec<Vec<f32>>) -> Matrix {
    let raw: Vec<Vec<u32>> = rows
        .into_iter()
        .map(|r| r.into_iter().map(|x| x.to_bits()).collect())
        .collect();
    Matrix::from_rows(raw).expect("rows must form a non-empty rectangle")
}

#[test]
fn from_array_is_single_row() {
    let m = Matrix::from_array(vec![b(1.0), b(2.0), b(3.0)]);
    assert_eq!((1, 3), m.size());
    assert_eq!(f(m.get(0, 1)), 2.0);
}

#[test]
fn from_rows_rejects_ragged_and_empty() {
    assert!(Matrix::from_rows(vec![]).is_none());
    assert!(Matrix::from_rows(vec![vec![b(1.0), b(2.0)], vec![b(3.0)]]).is_none());
    assert!(Matrix::from_rows(vec![vec![b(1.0)], vec![b(2.0)]]).is_some());
}

#[test]
fn dot_exact_values() {
    let a = mat(vec![vec![1.5, 2.0], vec![0.5, -1.0]]);
    let v = mat(vec![vec![2.0], vec![4.0]]);
    let r = a.dot(&v).unwrap();
    assert_eq!((2, 1), r.size());
    assert_eq!(f(r.get(0, 0)), 1.5 * 2.0 + 2.0 * 4.0);
    assert_eq!(f(r.get(1, 0)), 0.5 * 2.0 + (-1.0) * 4.0);
}

#[test]
fn dot_matches_native_accumulation_order() {
    // The sum is accumulated left to right in binary32: with these values
    // the large terms swallow the 1.0, so the result is 0.0, not 1.0.
    let xs = [1.0e8f32, 1.0, -1.0e8];
    let a = mat(vec![xs.to_vec()]);
    let v = mat(vec![vec![1.0], vec![1.0], vec![1.0]]);
    let r = a.dot(&v).unwrap();
    let mut acc: f32 = 0.0;
    for x in xs {
        acc += x * 1.0;
    }
    assert_eq!(r.get(0, 0), acc.to_bits());
    assert_eq!(f(r.get(0, 0)), 0.0);
}

#[test]
fn dot_mismatch_reports_sizes() {
    let a = mat(vec![vec![1.0, 2.0]]);
    let v = mat(vec![vec![1.0]]);
    match a.dot(&v) {
        Err(Error::DimensionMismatch { expected, actual }) => {
            assert_eq!(expected, 2);
            assert_eq!(actual, 1);
        },
        other => panic!("expected a dimension mismatch, got {:?}", other.map(|m| m.size())),
    }
}

#[test]
fn add_exact_values_and_shape() {
    let a = mat(vec![vec![1.0, 2.0], vec![-3.0, 4.5]]);
    let bias = vec![b(0.5), b(-1.0)];
    let r = a.add(&bias).unwrap();
    assert_eq!((2, 2), r.size());
    assert_eq!(f(r.get(0, 0)), 1.5);
    assert_eq!(f(r.get(0, 1)), 1.0);
    assert_eq!(f(r.get(1, 0)), -2.5);
    assert_eq!(f(r.get(1, 1)), 3.5);
}

#[test]
fn add_mismatch_reports_sizes() {
    let a = mat(vec![vec![1.0, 2.0]]);
    let bias = vec![b(1.0), b(2.0), b(3.0)];
    match a.add(&bias) {
        Err(Error::DimensionMismatch { expected, actual }) => {
            assert_eq!(expected, 2);
            assert_eq!(actual, 3);
        },
        other => panic!("expected a dimension mismatch, got {:?}", other.map(|m| m.size())),
    }
}

#[test]
fn relu_keeps_nonnegative_and_scales_negative() {
    let a = mat(vec![vec![3.0, -2.0, 0.0, -0.0]]);
    let r = a.relu(b(0.5));
    assert_eq!((1, 4), r.size());
    assert_eq!(f(r.get(0, 0)), 3.0);
    assert_eq!(f(r.get(0, 1)), -1.0);
    assert_eq!(r.get(0, 2), (0.0f32).to_bits());
    // IEEE comparison holds -0.0 >= 0.0, so negative zero passes unchanged.
    assert_eq!(r.get(0, 3), (-0.0f32).to_bits());
}

#[test]
fn relu_twice_nonnegative_is_once() {
    let a = mat(vec![vec![0.0, 1.25, 7.0]]);
    let once = a.relu(b(0.25));
    let twice = once.relu(b(0.25));
    for j in 0..3 {
        assert_eq!(once.get(0, j), twice.get(0, j));
    }
}

#[test]
fn relu_twice_negative_scales_by_alpha_squared() {
    let a = mat(vec![vec![-2.0]]);
    let twice = a.relu(b(0.5)).relu(b(0.5));
    assert_eq!(f(twice.get(0, 0)), 0.5 * 0.5 * -2.0);
}

#[test]
fn relu_alpha_is_model_specific() {
    let a = mat(vec![vec![-8.0]]);
    assert_eq!(f(a.relu(b(0.01)).get(0, 0)), 0.01f32 * -8.0);
    assert_eq!(f(a.relu(b(0.125)).get(0, 0)), -1.0);
}
