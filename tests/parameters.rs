use gaussian_process::{gather_parameters, scatter_parameters};

#[test]
fn gather_selects_kernel_noise_then_prior() {
    let kernel = vec![1, 2];
    let prior = vec![7, 8, 9];
    assert_eq!(gather_parameters(&kernel, 5, &prior, true, true), vec![1, 2, 5, 7, 8, 9]);
    assert_eq!(gather_parameters(&kernel, 5, &prior, true, false), vec![1, 2, 5]);
    assert_eq!(gather_parameters(&kernel, 5, &prior, false, true), vec![7, 8, 9]);
    assert!(gather_parameters(&kernel, 5, &prior, false, false).is_empty());
}

#[test]
fn scatter_writes_back_only_the_selected_parameters() {
    let mut kernel = vec![1, 2];
    let mut noise = 5;
    let mut prior = vec![7, 8, 9];
    scatter_parameters(&vec![10, 20, 50], &mut kernel, &mut noise, &mut prior, true, false);
    assert_eq!((kernel.clone(), noise, prior.clone()), (vec![10, 20], 50, vec![7, 8, 9]));
    scatter_parameters(&vec![70, 80, 90], &mut kernel, &mut noise, &mut prior, false, true);
    assert_eq!((kernel, noise, prior), (vec![10, 20], 50, vec![70, 80, 90]));
}

#[test]
fn scatter_of_gathered_changes_nothing() {
    let mut kernel = vec![0.5, 1.5];
    let mut noise = 1e-7;
    let mut prior = vec![2.0];
    let values = gather_parameters(&kernel, noise, &prior, true, true);
    scatter_parameters(&values, &mut kernel, &mut noise, &mut prior, true, true);
    assert_eq!(kernel, vec![0.5, 1.5]);
    assert_eq!(noise, 1e-7);
    assert_eq!(prior, vec![2.0]);
}

#[test]
fn gather_of_scattered_gives_the_values() {
    let mut kernel = vec![0.5, 1.5];
    let mut noise = 1e-7;
    let mut prior = vec![2.0];
    let values = vec![3.0, 4.0, 0.1, -1.0];
    scatter_parameters(&values, &mut kernel, &mut noise, &mut prior, true, true);
    assert_eq!(gather_parameters(&kernel, noise, &prior, true, true), values);
}
