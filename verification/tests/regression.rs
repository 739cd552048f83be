use kimai_ml::{DecisionTreeRegressor, Matrix, MlError, RandomSource, RidgeRegressor, SCALE};

#[test]
fn gaussian_solver_reproduces_known_solution() {
    let r = RidgeRegressor::new(0);
    let a = Matrix { data: vec![vec![2 * SCALE, 0], vec![0, 4 * SCALE]], cols: 2 };
    let b = vec![2 * SCALE, 8 * SCALE];
    let x = r.solve_linear_system(&a, &b).unwrap();
    assert_eq!(x, vec![SCALE, 2 * SCALE]);
}

#[test]
fn gaussian_solver_pivots_rows() {
    let r = RidgeRegressor::new(0);
    // The larger magnitude in column 0 sits in the second row.
    let a = Matrix { data: vec![vec![0, 2 * SCALE], vec![3 * SCALE, 0]], cols: 2 };
    let b = vec![4 * SCALE, 6 * SCALE];
    let x = r.solve_linear_system(&a, &b).unwrap();
    assert_eq!(x, vec![2 * SCALE, 2 * SCALE]);
}

#[test]
fn gaussian_solver_eliminates_and_back_substitutes() {
    let r = RidgeRegressor::new(0);
    // 2x + y = 5, x + 3y = 10 has the exact solution x = 1, y = 3.
    let a = Matrix { data: vec![vec![2 * SCALE, SCALE], vec![SCALE, 3 * SCALE]], cols: 2 };
    let b = vec![5 * SCALE, 10 * SCALE];
    let x = r.solve_linear_system(&a, &b).unwrap();
    assert_eq!(x, vec![SCALE, 3 * SCALE]);
}

#[test]
fn identical_rows_are_singular() {
    let r = RidgeRegressor::new(0);
    let a = Matrix { data: vec![vec![SCALE, SCALE], vec![SCALE, SCALE]], cols: 2 };
    let b = vec![SCALE, SCALE];
    assert_eq!(r.solve_linear_system(&a, &b), Err(MlError::SingularMatrix));
}

#[test]
fn ridge_fit_recovers_a_perfect_line() {
    let mut r = RidgeRegressor::new(0);
    let x = Matrix { data: vec![vec![SCALE], vec![2 * SCALE], vec![3 * SCALE]], cols: 1 };
    let y = vec![2 * SCALE, 4 * SCALE, 6 * SCALE];
    r.fit(&x, &y).unwrap();
    assert_eq!(r.weights, vec![2 * SCALE]);
    assert_eq!(r.bias, 0);
    let p = r.predict(&Matrix { data: vec![vec![4 * SCALE]], cols: 1 }).unwrap();
    assert_eq!(p, vec![8 * SCALE]);
}

#[test]
fn ridge_predict_before_fit_is_not_trained() {
    let r = RidgeRegressor::new(SCALE);
    let x = Matrix { data: vec![vec![SCALE]], cols: 1 };
    assert!(matches!(r.predict(&x), Err(MlError::NotTrained)));
}

#[test]
fn ridge_weight_norm_shrinks_as_alpha_grows() {
    let x = Matrix {
        data: vec![
            vec![SCALE, 2 * SCALE],
            vec![2 * SCALE, SCALE],
            vec![SCALE, SCALE],
            vec![3 * SCALE, 2 * SCALE],
        ],
        cols: 2,
    };
    let y = vec![3 * SCALE, 3 * SCALE, 2 * SCALE, 5 * SCALE];
    let mut norms: Vec<i128> = Vec::new();
    for alpha in [0i64, SCALE, 10 * SCALE, 100 * SCALE] {
        let mut r = RidgeRegressor::new(alpha);
        r.fit(&x, &y).unwrap();
        let n: i128 = r.weights.iter().map(|w| (*w as i128) * (*w as i128)).sum();
        norms.push(n);
    }
    for k in 1..norms.len() {
        assert!(norms[k] <= norms[k - 1], "norms {:?}", norms);
    }
}

#[test]
fn tree_predictions_stay_within_target_range() {
    let mut rng = RandomSource::new(7);
    let mut tree = DecisionTreeRegressor::new(4, 2);
    let x = Matrix {
        data: vec![
            vec![1 * SCALE],
            vec![2 * SCALE],
            vec![3 * SCALE],
            vec![4 * SCALE],
            vec![5 * SCALE],
            vec![6 * SCALE],
        ],
        cols: 1,
    };
    let y = vec![10 * SCALE, 12 * SCALE, 9 * SCALE, 30 * SCALE, 28 * SCALE, 31 * SCALE];
    tree.fit(&x, &y, &mut rng).unwrap();
    let probes = Matrix {
        data: vec![vec![-100 * SCALE], vec![0], vec![3 * SCALE], vec![100 * SCALE]],
        cols: 1,
    };
    let p = tree.predict(&probes).unwrap();
    for v in p {
        assert!(9 * SCALE <= v && v <= 31 * SCALE, "prediction {}", v);
    }
}

#[test]
fn tree_fit_rejects_empty_input() {
    let mut rng = RandomSource::new(7);
    let mut tree = DecisionTreeRegressor::new(4, 2);
    let x = Matrix { data: vec![], cols: 1 };
    let y: Vec<i64> = vec![];
    assert_eq!(tree.fit(&x, &y, &mut rng), Err(MlError::EmptyInput));
}

#[test]
fn tree_predict_before_fit_is_not_trained() {
    let tree = DecisionTreeRegressor::new(4, 2);
    let x = Matrix { data: vec![vec![SCALE]], cols: 1 };
    assert!(matches!(tree.predict(&x), Err(MlError::NotTrained)));
}
