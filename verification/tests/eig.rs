use krylov_eig::dense::{Matrix, Vector};
use krylov_eig::eig::{
    all_within, BlockStep, EigResult, Order, TruncatedEig, TruncatedEigIterator,
    ACCEPTANCE_THRESHOLD, DEFAULT_PRECISION,
};
use ndarray::Array2;
use ndarray_rand::rand_distr::Uniform;
use ndarray_rand::RandomExt;

fn vector(xs: &[f64]) -> Vector {
    Vector::from_vec(xs.iter().map(|x| x.to_bits()).collect())
}

fn reals(v: &Vector) -> Vec<f64> {
    v.to_vec().into_iter().map(f64::from_bits).collect()
}

fn matrix(columns: &[Vec<f64>], rows: usize) -> Matrix {
    let mut a = Matrix::zeros(rows, columns.len());
    for j in 0..columns.len() {
        for i in 0..rows {
            a.set(i, j, columns[j][i].to_bits());
        }
    }
    a
}

fn columns(a: &Matrix) -> Vec<Vec<f64>> {
    (0..a.cols()).map(|j| (0..a.rows()).map(|i| f64::from_bits(a.get(i, j))).collect()).collect()
}

fn norms(xs: &[f64]) -> Vec<u64> {
    xs.iter().map(|x| x.to_bits()).collect()
}

fn dot(x: &[f64], y: &[f64]) -> f64 {
    x.iter().zip(y.iter()).map(|(a, b)| a * b).sum()
}

fn identity(n: usize) -> Matrix {
    let mut a = Matrix::zeros(n, n);
    for i in 0..n {
        a.set(i, i, 1.0f64.to_bits());
    }
    a
}

fn unit(n: usize, at: usize) -> Vec<f64> {
    (0..n).map(|i| if i == at { 1.0 } else { 0.0 }).collect()
}

fn batch(n: usize, at: usize, value: f64) -> (Vector, Matrix) {
    (vector(&[value]), matrix(&[unit(n, at)], n))
}

fn constraint_count(it: &TruncatedEigIterator) -> usize {
    match &it.eig().constraints {
        Some(c) => c.cols(),
        None => 0,
    }
}

/// A block step for one eigenpair of a symmetric positive definite operator:
/// power iteration, held orthogonal to the constraints.
fn power_step(step: &BlockStep, guess: &[f64]) -> EigResult {
    assert_eq!(step.width, 1);
    assert_eq!(guess.len(), step.rows);
    assert!(step.preconditioner.is_none());
    assert_eq!(step.order, Order::Largest);
    let n = step.rows;
    let a = columns(step.operator);
    let held: Vec<Vec<f64>> = match &step.constraints {
        Some(c) => columns(c),
        None => Vec::new(),
    };
    let clean = |x: &mut Vec<f64>| {
        for _ in 0..2 {
            for c in &held {
                let k = dot(c, x) / dot(c, c);
                for i in 0..x.len() {
                    x[i] -= k * c[i];
                }
            }
        }
    };
    let precision = f64::from_bits(step.precision);
    let mut x = guess.to_vec();
    clean(&mut x);
    let length = dot(&x, &x).sqrt();
    if length == 0.0 {
        return EigResult::NoResult(format!("nothing left of the initial block"));
    }
    x.iter_mut().for_each(|v| *v /= length);
    let mut value = 0.0;
    let mut residual = f64::INFINITY;
    for _ in 0..step.maxiter {
        let mut y: Vec<f64> = vec![0.0; n];
        for j in 0..n {
            for i in 0..n {
                y[i] += a[j][i] * x[j];
            }
        }
        clean(&mut y);
        value = dot(&x, &y);
        residual = (0..n).map(|i| (y[i] - value * x[i]).powi(2)).sum::<f64>().sqrt();
        if residual <= precision {
            break;
        }
        let length = dot(&y, &y).sqrt();
        x = y.iter().map(|v| v / length).collect();
    }
    let values = vector(&[value]);
    let vectors = matrix(&[x], n);
    if residual <= precision {
        EigResult::Converged(values, vectors, norms(&[residual]))
    } else {
        EigResult::Stalled(values, vectors, norms(&[residual]), format!("not converged"))
    }
}

fn guess_for(step: &BlockStep) -> Vec<f64> {
    Array2::random((step.rows, step.width), Uniform::new(0.0, 1.0)).column(0).to_vec()
}

fn pull(it: &mut TruncatedEigIterator) -> Option<(Vector, Matrix)> {
    let result = {
        let step = it.request()?;
        let guess = guess_for(&step);
        power_step(&step, &guess)
    };
    it.next(result)
}

#[test]
fn new_takes_the_defaults() {
    let eig = TruncatedEig::new(identity(7), Order::Smallest);
    assert_eq!(eig.precision, DEFAULT_PRECISION);
    assert_eq!(f64::from_bits(eig.precision), 1e-5);
    assert_eq!(eig.maxiter, 14);
    assert!(eig.constraints.is_none());
    assert_eq!(eig.order, Order::Smallest);
    assert_eq!((eig.problem.rows(), eig.problem.cols()), (7, 7));
}

#[test]
fn new_on_an_empty_problem_allows_no_iteration() {
    let eig = TruncatedEig::new(Matrix::zeros(0, 0), Order::Largest);
    assert_eq!(eig.maxiter, 0);
}

#[test]
fn builders_replace_one_setting_each() {
    let eig = TruncatedEig::new(identity(3), Order::Largest).precision(1e-6f64.to_bits());
    assert_eq!(f64::from_bits(eig.precision), 1e-6);
    assert_eq!(eig.maxiter, 6);
    let eig = eig.maxiter(500);
    assert_eq!(eig.maxiter, 500);
    assert_eq!(f64::from_bits(eig.precision), 1e-6);
    assert!(eig.constraints.is_none());
    let eig = eig.constraints(matrix(&[unit(3, 2)], 3));
    assert_eq!(columns(eig.constraints.as_ref().unwrap()), vec![unit(3, 2)]);
    assert_eq!(eig.maxiter, 500);
    assert_eq!(eig.order, Order::Largest);
}

#[test]
fn once_asks_for_a_block_of_the_given_width() {
    let eig = TruncatedEig::new(identity(4), Order::Smallest)
        .precision(1e-7f64.to_bits())
        .maxiter(9)
        .constraints(matrix(&[unit(4, 0), unit(4, 3)], 4));
    let step = eig.once(3);
    assert_eq!(step.rows, 4);
    assert_eq!(step.width, 3);
    assert!(step.preconditioner.is_none());
    assert_eq!(f64::from_bits(step.precision), 1e-7);
    assert_eq!(step.maxiter, 9);
    assert_eq!(step.order, Order::Smallest);
    assert_eq!(columns(step.constraints.as_ref().unwrap()), vec![unit(4, 0), unit(4, 3)]);
    assert_eq!(columns(step.operator), columns(&identity(4)));
}

#[test]
fn once_without_constraints_passes_none() {
    let eig = TruncatedEig::new(identity(2), Order::Largest);
    let step = eig.once(1);
    assert!(step.constraints.is_none());
    assert_eq!((step.rows, step.width), (2, 1));
}

#[test]
fn into_iter_asks_for_one_eigenpair_at_a_time() {
    let it = TruncatedEig::new(identity(5), Order::Largest).into_iter();
    assert!(!it.is_finished());
    let step = it.request().unwrap();
    assert_eq!((step.rows, step.width), (5, 1));
    assert_eq!(step.maxiter, 10);
    assert_eq!(step.precision, DEFAULT_PRECISION);
    assert!(step.constraints.is_none());
}

#[test]
fn next_yields_a_converged_batch_and_deflates() {
    let mut it = TruncatedEig::new(identity(3), Order::Largest).into_iter();
    let (values, vectors) = batch(3, 1, 2.5);
    let item = it.next(EigResult::Converged(values, vectors, norms(&[1e-7])));
    let (values, vectors) = item.unwrap();
    assert_eq!(reals(&values), vec![2.5]);
    assert_eq!(columns(&vectors), vec![unit(3, 1)]);
    assert!(!it.is_finished());
    assert_eq!(columns(it.eig().constraints.as_ref().unwrap()), vec![unit(3, 1)]);
}

#[test]
fn next_appends_to_the_constraints_that_exist() {
    let eig = TruncatedEig::new(identity(3), Order::Largest).constraints(matrix(&[unit(3, 0)], 3));
    let mut it = eig.into_iter();
    let (values, vectors) = batch(3, 2, 4.0);
    assert!(it.next(EigResult::Converged(values, vectors, norms(&[0.0]))).is_some());
    let (values, vectors) = batch(3, 1, 3.0);
    assert!(it.next(EigResult::Converged(values, vectors, norms(&[0.0]))).is_some());
    assert_eq!(
        columns(it.eig().constraints.as_ref().unwrap()),
        vec![unit(3, 0), unit(3, 2), unit(3, 1)]
    );
    let step = it.request().unwrap();
    assert_eq!(columns(step.constraints.as_ref().unwrap()).len(), 3);
}

#[test]
fn next_yields_a_stalled_batch_with_small_residuals() {
    let mut it = TruncatedEig::new(identity(2), Order::Largest).into_iter();
    let (values, vectors) = batch(2, 0, 1.0);
    let result = EigResult::Stalled(values, vectors, norms(&[0.05]), format!("iteration cap"));
    let (values, _) = it.next(result).unwrap();
    assert_eq!(reals(&values), vec![1.0]);
    assert_eq!(constraint_count(&it), 1);
}

#[test]
fn next_refuses_a_batch_with_a_large_residual() {
    let mut it = TruncatedEig::new(identity(2), Order::Largest).into_iter();
    let (values, vectors) = batch(2, 0, 1.0);
    assert!(it.next(EigResult::Converged(values, vectors, norms(&[1e-9]))).is_some());
    let values = vector(&[1.0, 1.0]);
    let vectors = matrix(&[unit(2, 0), unit(2, 1)], 2);
    assert!(it.next(EigResult::Stalled(values, vectors, norms(&[0.01, 0.2]), String::new())).is_none());
    assert!(it.is_finished());
    assert_eq!(constraint_count(&it), 1);
}

#[test]
fn next_refuses_a_converged_batch_with_a_large_residual() {
    let mut it = TruncatedEig::new(identity(2), Order::Largest).into_iter();
    let (values, vectors) = batch(2, 0, 1.0);
    assert!(it.next(EigResult::Converged(values, vectors, norms(&[0.5]))).is_none());
    assert!(it.is_finished());
    assert!(it.eig().constraints.is_none());
}

#[test]
fn next_ends_on_no_result() {
    let mut it = TruncatedEig::new(identity(2), Order::Largest).into_iter();
    assert!(it.next(EigResult::NoResult(format!("degenerate block"))).is_none());
    assert!(it.is_finished());
    assert!(it.request().is_none());
    assert!(it.eig().constraints.is_none());
}

#[test]
fn next_takes_a_residual_at_the_threshold() {
    let mut it = TruncatedEig::new(identity(2), Order::Largest).into_iter();
    let (values, vectors) = batch(2, 0, 1.0);
    assert!(it.next(EigResult::Converged(values, vectors, norms(&[0.1]))).is_some());
    let (values, vectors) = batch(2, 1, 1.0);
    let above = f64::from_bits(ACCEPTANCE_THRESHOLD + 1);
    assert!(it.next(EigResult::Converged(values, vectors, norms(&[above]))).is_none());
}

#[test]
fn next_takes_a_residual_that_is_no_number() {
    let mut it = TruncatedEig::new(identity(2), Order::Largest).into_iter();
    let (values, vectors) = batch(2, 0, 1.0);
    assert!(it.next(EigResult::Converged(values, vectors, norms(&[f64::NAN]))).is_some());
}

#[test]
fn next_takes_a_batch_without_residuals() {
    let mut it = TruncatedEig::new(identity(2), Order::Largest).into_iter();
    let result = EigResult::Converged(vector(&[]), Matrix::zeros(2, 0), Vec::new());
    let (values, vectors) = it.next(result).unwrap();
    assert_eq!(values.len(), 0);
    assert_eq!((vectors.rows(), vectors.cols()), (2, 0));
    assert_eq!(constraint_count(&it), 0);
    assert!(it.eig().constraints.is_some());
}

#[test]
fn stop_is_final() {
    let mut it = TruncatedEig::new(identity(3), Order::Largest).into_iter();
    let (values, vectors) = batch(3, 0, 1.0);
    assert!(it.next(EigResult::Converged(values, vectors, norms(&[0.0]))).is_some());
    let (values, vectors) = batch(3, 1, 1.0);
    assert!(it.next(EigResult::Converged(values, vectors, norms(&[0.3]))).is_none());
    for _ in 0..3 {
        let (values, vectors) = batch(3, 2, 1.0);
        assert!(it.next(EigResult::Converged(values, vectors, norms(&[0.0]))).is_none());
        assert!(it.is_finished());
        assert!(it.request().is_none());
        assert_eq!(columns(it.eig().constraints.as_ref().unwrap()), vec![unit(3, 0)]);
    }
}

#[test]
fn constraints_grow_by_the_batch_with_every_yield() {
    let mut it = TruncatedEig::new(identity(4), Order::Largest).into_iter();
    let mut before = constraint_count(&it);
    for at in 0..4 {
        let width = it.request().unwrap().width;
        let (values, vectors) = batch(4, at, 1.0);
        assert_eq!(vectors.cols(), width);
        assert!(it.next(EigResult::Converged(values, vectors, norms(&[0.0]))).is_some());
        assert_eq!(constraint_count(&it), before + width);
        before = constraint_count(&it);
    }
    assert!(it.next(EigResult::NoResult(String::new())).is_none());
    assert_eq!(constraint_count(&it), before);
}

#[test]
fn threshold_replaces_the_acceptance_bound() {
    let mut it = TruncatedEig::new(identity(2), Order::Largest).into_iter().threshold(0.5f64.to_bits());
    let (values, vectors) = batch(2, 0, 1.0);
    assert!(it.next(EigResult::Converged(values, vectors, norms(&[0.3]))).is_some());
    let mut it = TruncatedEig::new(identity(2), Order::Largest).into_iter().threshold(1e-3f64.to_bits());
    let (values, vectors) = batch(2, 0, 1.0);
    assert!(it.next(EigResult::Converged(values, vectors, norms(&[0.01]))).is_none());
}

#[test]
fn all_within_looks_at_every_norm() {
    let bound = 0.1f64.to_bits();
    assert!(all_within(&norms(&[]), bound));
    assert!(all_within(&norms(&[0.0, 0.1, 0.05, -3.0]), bound));
    assert!(!all_within(&norms(&[0.2, 0.0, 0.0]), bound));
    assert!(!all_within(&norms(&[0.0, 0.0, 0.2]), bound));
    assert!(!all_within(&norms(&[0.0, f64::INFINITY]), bound));
    assert!(all_within(&norms(&[f64::NAN, 0.0]), bound));
}

#[test]
fn can_take_asks_for_matching_rows() {
    let eig = TruncatedEig::new(identity(3), Order::Largest).constraints(matrix(&[unit(3, 0)], 3));
    let mut it = eig.into_iter();
    let (values, vectors) = batch(3, 1, 1.0);
    assert!(it.can_take(&EigResult::Converged(values, vectors, norms(&[0.0]))));
    let (values, vectors) = batch(2, 1, 1.0);
    assert!(!it.can_take(&EigResult::Converged(values, vectors, norms(&[0.0]))));
    let (values, vectors) = batch(2, 1, 1.0);
    assert!(!it.can_take(&EigResult::Stalled(values, vectors, norms(&[0.1]), String::new())));
    let (values, vectors) = batch(2, 1, 1.0);
    assert!(it.can_take(&EigResult::Converged(values, vectors, norms(&[0.2]))));
    assert!(it.can_take(&EigResult::NoResult(String::new())));
    assert!(it.next(EigResult::NoResult(String::new())).is_none());
    let (values, vectors) = batch(2, 1, 1.0);
    assert!(it.can_take(&EigResult::Converged(values, vectors, norms(&[0.0]))));
}

#[test]
fn can_take_takes_any_batch_while_nothing_is_held() {
    let it = TruncatedEig::new(identity(3), Order::Largest).into_iter();
    let (values, vectors) = batch(5, 1, 1.0);
    assert!(it.can_take(&EigResult::Converged(values, vectors, norms(&[0.0]))));
}

#[test]
fn three_largest_eigenpairs_of_a_definite_operator() {
    // H D H for a Householder reflection H and D = diag(4^10, 4^9, .., 4).
    let n = 10;
    let w: Vec<f64> = (0..n).map(|i| 1.0 + i as f64).collect();
    let ww = dot(&w, &w);
    let h = |i: usize, j: usize| (if i == j { 1.0 } else { 0.0 }) - 2.0 * w[i] * w[j] / ww;
    let d: Vec<f64> = (0..n).map(|i| 4.0f64.powi((n - i) as i32)).collect();
    let mut a = Matrix::zeros(n, n);
    for i in 0..n {
        for j in 0..n {
            let s: f64 = (0..n).map(|k| h(i, k) * d[k] * h(k, j)).sum();
            a.set(i, j, s.to_bits());
        }
    }
    let eig = TruncatedEig::new(a, Order::Largest).precision(1e-6f64.to_bits()).maxiter(200);
    let mut it = eig.into_iter();
    let mut values: Vec<f64> = Vec::new();
    let mut vectors: Vec<Vec<f64>> = Vec::new();
    for step in 0..3 {
        let (value, vector) = pull(&mut it).unwrap();
        assert_eq!(value.len(), 1);
        assert_eq!((vector.rows(), vector.cols()), (n, 1));
        values.push(reals(&value)[0]);
        vectors.push(columns(&vector).remove(0));
        assert_eq!(constraint_count(&it), step + 1);
    }
    for k in 0..3 {
        assert!((values[k] - d[k]).abs() < 1e-5 * d[k], "eigenvalue {} is {}", k, values[k]);
    }
    assert!(values[0].abs() >= values[1].abs());
    assert!(values[1].abs() >= values[2].abs());
    for k in 0..3 {
        for l in 0..k {
            assert!(dot(&vectors[k], &vectors[l]).abs() < 1e-8);
        }
    }
}

#[test]
fn test_truncated_eig() {
    let a = Array2::random((50, 50), Uniform::new(0., 1.0));
    let a = a.t().dot(&a);
    let mut problem = Matrix::zeros(50, 50);
    for i in 0..50 {
        for j in 0..50 {
            problem.set(i, j, f64::to_bits(a[(i, j)]));
        }
    }

    let teig = TruncatedEig::new(problem, Order::Largest).precision(1e-5f64.to_bits()).maxiter(500);

    let mut it = teig.into_iter();
    let mut res: Vec<f64> = Vec::new();
    for _ in 0..3 {
        match pull(&mut it) {
            Some((values, _)) => res.extend(reals(&values)),
            None => break,
        }
    }
    println!("{:?}", res);
    assert!(res.len() <= 3);
    assert_eq!(res.len(), constraint_count(&it));
    for value in res {
        assert!(value.is_finite() && value >= 0.0);
    }
}
