use gaussian_process::{
    make_covariance_matrix, make_gradient_covariance_matrices, make_symmetric_covariance_matrix,
    validate_rows, validate_training_set, ShapeError, TrainingSet,
};

/// Squared distance between two rows.
fn distance(x: &Vec<i64>, y: &Vec<i64>) -> i64 {
    x.iter().zip(y.iter()).map(|(a, b)| (a - b) * (a - b)).sum()
}

/// Two gradient-like values: the squared distance and the sum of the first
/// coordinates.
fn distance_gradient(x: &Vec<i64>, y: &Vec<i64>) -> Vec<i64> {
    vec![distance(x, y), x[0] + y[0]]
}

/// Not symmetric: the first coordinate of the first row minus that of the
/// second.
fn difference(x: &Vec<i64>, y: &Vec<i64>) -> i64 {
    x[0] - y[0]
}

/// Not symmetric either.
fn difference_gradient(x: &Vec<i64>, y: &Vec<i64>) -> Vec<i64> {
    vec![10 * x[0] + y[0]]
}

#[test]
fn cross_matrix_entries() {
    let a = vec![vec![0, 0], vec![1, 2]];
    let b = vec![vec![1, 0], vec![0, 3], vec![2, 2]];
    let m = make_covariance_matrix(&a, &b, &distance);
    assert_eq!(m, vec![vec![1, 9, 8], vec![4, 2, 1]]);
}

#[test]
fn cross_matrix_of_set_with_itself_is_symmetric() {
    let a = vec![vec![0], vec![3], vec![-2], vec![7]];
    let m = make_covariance_matrix(&a, &a, &distance);
    for i in 0..a.len() {
        for j in 0..a.len() {
            assert_eq!(m[i][j], m[j][i]);
        }
        assert_eq!(m[i][i], 0);
    }
}

#[test]
fn cross_matrix_with_no_rows() {
    let a: Vec<Vec<i64>> = vec![];
    let b = vec![vec![1]];
    assert!(make_covariance_matrix(&a, &b, &distance).is_empty());
    let m = make_covariance_matrix(&b, &a, &distance);
    assert_eq!(m, vec![Vec::<i64>::new()]);
}

#[test]
fn symmetric_matrix_matches_cross_for_symmetric_kernel() {
    let a = vec![vec![1, 1], vec![4, 0], vec![2, 5]];
    let full = make_covariance_matrix(&a, &a, &distance);
    let lower = make_symmetric_covariance_matrix(&a, &distance);
    assert_eq!(full, lower);
}

#[test]
fn symmetric_matrix_mirrors_the_lower_triangle() {
    let a = vec![vec![1], vec![4], vec![9]];
    let m = make_symmetric_covariance_matrix(&a, &difference);
    // entry (i, j) with j <= i is kernel(row j, row i)
    assert_eq!(m, vec![vec![0, -3, -8], vec![-3, 0, -5], vec![-8, -5, 0]]);
}

#[test]
fn gradient_matrices_one_per_parameter() {
    let a = vec![vec![1], vec![3]];
    let g = make_gradient_covariance_matrices(&a, &distance_gradient, 2);
    assert_eq!(g.len(), 2);
    assert_eq!(g[0], vec![vec![0, 4], vec![4, 0]]);
    assert_eq!(g[1], vec![vec![2, 4], vec![4, 6]]);
}

#[test]
fn gradient_matrices_are_symmetric_for_any_kernel() {
    let a = vec![vec![1], vec![2], vec![5]];
    let g = make_gradient_covariance_matrices(&a, &difference_gradient, 1);
    assert_eq!(g.len(), 1);
    assert_eq!(g[0], vec![vec![11, 12, 15], vec![12, 22, 25], vec![15, 25, 55]]);
}

#[test]
fn validate_rows_accepts_uniform_rows() {
    assert_eq!(validate_rows(&vec![vec![1.0, 2.0], vec![3.0, 4.0]]), Ok(2));
}

#[test]
fn validate_rows_refuses_empty() {
    let rows: Vec<Vec<f64>> = vec![];
    assert_eq!(validate_rows(&rows), Err(ShapeError::Empty));
}

#[test]
fn validate_rows_names_first_bad_row() {
    let rows = vec![vec![1.0], vec![2.0], vec![3.0, 4.0], vec![]];
    assert_eq!(validate_rows(&rows), Err(ShapeError::RowWidth { row: 2, expected: 1, found: 2 }));
}

#[test]
fn validate_training_set_errors_in_order() {
    let none: Vec<Vec<f64>> = vec![];
    assert_eq!(validate_training_set(&none, &vec![1.0]), Err(ShapeError::Empty));
    let rows = vec![vec![0.8], vec![1.2, 0.0]];
    assert_eq!(
        validate_training_set(&rows, &vec![3.0]),
        Err(ShapeError::LengthMismatch { inputs: 2, outputs: 1 })
    );
    assert_eq!(
        validate_training_set(&rows, &vec![3.0, 4.0]),
        Err(ShapeError::RowWidth { row: 1, expected: 1, found: 2 })
    );
}

#[test]
fn training_set_holds_its_data() {
    let t = TrainingSet::new(vec![vec![0.8], vec![1.2], vec![3.8], vec![4.2]], vec![3.0, 4.0, -2.0, -2.0])
        .unwrap();
    assert_eq!(t.len(), 4);
    assert_eq!(t.width(), 1);
    assert_eq!(t.inputs()[2], vec![3.8]);
    assert_eq!(t.outputs(), &vec![3.0, 4.0, -2.0, -2.0]);
}

#[test]
fn training_set_refuses_bad_shapes() {
    assert!(matches!(TrainingSet::<f64>::new(vec![], vec![]), Err(ShapeError::Empty)));
    assert!(matches!(
        TrainingSet::new(vec![vec![1.0]], vec![1.0, 2.0]),
        Err(ShapeError::LengthMismatch { inputs: 1, outputs: 2 })
    ));
}

#[test]
fn extend_appends_rows_and_outputs() {
    let mut t = TrainingSet::new(vec![vec![0.8], vec![1.2]], vec![3.0, 4.0]).unwrap();
    assert_eq!(t.extend(vec![vec![0.0], vec![5.0]], vec![2.0, -2.0]), Ok(()));
    assert_eq!(t.inputs(), &vec![vec![0.8], vec![1.2], vec![0.0], vec![5.0]]);
    assert_eq!(t.outputs(), &vec![3.0, 4.0, 2.0, -2.0]);
}

#[test]
fn extend_with_nothing_changes_nothing() {
    let mut t = TrainingSet::new(vec![vec![0.8, 0.1]], vec![3.0]).unwrap();
    assert_eq!(t.extend(vec![], vec![]), Ok(()));
    assert_eq!(t.inputs(), &vec![vec![0.8, 0.1]]);
    assert_eq!(t.outputs(), &vec![3.0]);
}

#[test]
fn extend_refuses_bad_rows_and_keeps_the_set() {
    let mut t = TrainingSet::new(vec![vec![0.8, 0.1]], vec![3.0]).unwrap();
    assert_eq!(
        t.extend(vec![vec![1.0, 2.0]], vec![]),
        Err(ShapeError::LengthMismatch { inputs: 1, outputs: 0 })
    );
    assert_eq!(
        t.extend(vec![vec![1.0]], vec![2.0]),
        Err(ShapeError::RowWidth { row: 0, expected: 2, found: 1 })
    );
    assert_eq!(
        t.extend(vec![vec![1.0, 2.0], vec![3.0]], vec![2.0, 1.0]),
        Err(ShapeError::RowWidth { row: 1, expected: 2, found: 1 })
    );
    assert_eq!(t.len(), 1);
    assert_eq!(t.outputs(), &vec![3.0]);
}

#[test]
fn queries_must_match_the_training_width() {
    let t = TrainingSet::new(vec![vec![0.8, 0.1], vec![1.2, 0.2]], vec![3.0, 4.0]).unwrap();
    assert_eq!(t.validate_queries(&vec![vec![1.0, 0.4]]), Ok(()));
    assert_eq!(t.validate_queries(&vec![]), Err(ShapeError::Empty));
    assert_eq!(
        t.validate_queries(&vec![vec![1.0]]),
        Err(ShapeError::RowWidth { row: 0, expected: 2, found: 1 })
    );
    assert_eq!(
        t.validate_queries(&vec![vec![1.0, 2.0], vec![1.0, 2.0, 3.0]]),
        Err(ShapeError::RowWidth { row: 1, expected: 2, found: 3 })
    );
}
