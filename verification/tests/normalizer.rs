use kimai_ml::{DataNormalizer, Matrix, MlError, SCALE};

fn sample_matrix() -> Matrix {
    Matrix {
        data: vec![
            vec![10 * SCALE, 5 * SCALE],
            vec![20 * SCALE, 5 * SCALE],
            vec![30 * SCALE, 5 * SCALE],
        ],
        cols: 2,
    }
}

#[test]
fn fit_rejects_empty_input() {
    let mut n = DataNormalizer::new();
    let x = Matrix { data: vec![], cols: 2 };
    assert_eq!(n.fit(&x), Err(MlError::EmptyInput));
}

#[test]
fn transform_before_fit_is_not_fitted() {
    let n = DataNormalizer::new();
    let x = sample_matrix();
    assert!(matches!(n.transform(&x), Err(MlError::NotFitted)));
}

#[test]
fn transform_centers_each_column() {
    let mut n = DataNormalizer::new();
    let x = sample_matrix();
    let t = n.fit_transform(&x).unwrap();
    for j in 0..2 {
        let sum: i64 = t.data.iter().map(|row| row[j]).sum();
        // The per-column mean vanishes up to truncation.
        assert!(sum.abs() <= 3, "column {} sum {}", j, sum);
    }
}

#[test]
fn transform_scales_to_unit_deviation() {
    let mut n = DataNormalizer::new();
    let x = sample_matrix();
    let t = n.fit_transform(&x).unwrap();
    // Column 0 has values -s, 0, s with s near sqrt(3/2) = 1.2247...
    let s = t.data[2][0];
    assert!(t.data[0][0] == -s && t.data[1][0] == 0);
    assert!((s - 1_224_744).abs() <= 2, "scaled value {}", s);
    // Mean square near 1: (2*s^2/3) / SCALE near 2/3 * 1.5 = 1.
    let msq = (2 * (s as i128) * (s as i128) / 3 / (SCALE as i128)) as i64;
    assert!((msq - SCALE).abs() <= 5, "mean square {}", msq);
}

#[test]
fn degenerate_column_clamps_deviation_to_one() {
    let mut n = DataNormalizer::new();
    let x = sample_matrix();
    n.fit(&x).unwrap();
    // Column 1 is constant: std clamps to 1.0 and entries map to 0.
    assert_eq!(n.stds[1], SCALE);
    let t = n.transform(&x).unwrap();
    for i in 0..3 {
        assert_eq!(t.data[i][1], 0);
    }
}

#[test]
fn transform_is_idempotent_bit_for_bit() {
    let mut n = DataNormalizer::new();
    let x = sample_matrix();
    n.fit(&x).unwrap();
    let a = n.transform(&x).unwrap();
    let b = n.transform(&x).unwrap();
    assert_eq!(a.data, b.data);
    let c = n.transform(&a).unwrap();
    let d = n.transform(&a).unwrap();
    assert_eq!(c.data, d.data);
}
