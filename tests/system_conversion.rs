use kalmanfilter::linalg::try_inverse;
use kalmanfilter::matrix::{vec_add, Matrix};
use kalmanfilter::nt::{ContinuousInputMatrix, ContinuousSystemMatrix};
use kalmanfilter::scalar::{Real, Scalar};
use kalmanfilter::systems::{calc_mat_h, continuous_to_discrete, mat_a_to_mat_f};

fn re(x: f64) -> Real {
    Real::from_raw((x * 1e9).round() as i64)
}

fn fl(x: Real) -> f64 {
    assert!(x.is_finite());
    x.raw as f64 / 1e9
}

fn mat(nrows: usize, ncols: usize, data: &[f64]) -> Matrix<Real> {
    let mut rows = Vec::new();
    for i in 0..nrows {
        rows.push(data[i * ncols..(i + 1) * ncols].iter().map(|x| re(*x)).collect());
    }
    Matrix::from_rows(rows).unwrap()
}

const A_REGULAR: [f64; 4] = [-3., 1.5, 0.5, -2.];
const A_SINGULAR: [f64; 4] = [-3., 1.5, 1.5, -0.75];
const B: [f64; 2] = [1., 0.];

/// The continuous model `x' = A x + B u`, advanced by Euler steps.
struct Continuous {
    a: [f64; 4],
    x: [f64; 2],
}

impl Continuous {
    fn step(&mut self, u: f64, dt: f64) {
        let a = &self.a;
        let x = self.x;
        let dx0 = a[0] * x[0] + a[1] * x[1] + B[0] * u;
        let dx1 = a[2] * x[0] + a[3] * x[1] + B[1] * u;
        self.x = [x[0] + dx0 * dt, x[1] + dx1 * dt];
    }
}

/// The discrete model `x <- F x + H u`.
struct Discrete {
    f: Matrix<Real>,
    h: Matrix<Real>,
    x: Vec<Real>,
}

impl Discrete {
    fn new(a: &[f64; 4], dt: f64, eps: f64) -> Discrete {
        let sys = continuous_to_discrete(
            &ContinuousSystemMatrix(mat(2, 2, a)),
            &ContinuousInputMatrix(mat(2, 1, &B)),
            re(dt),
            re(eps),
        );
        Discrete { f: sys.mat_f.0, h: sys.mat_h.0, x: vec![Real::zero(), Real::zero()] }
    }

    fn step(&mut self, u: f64) {
        let fx = self.f.mul_vec(&self.x);
        let hu = self.h.mul_vec(&vec![re(u)]);
        self.x = vec_add(&fx, &hu);
    }
}

fn max_diff(d: &Discrete, c: &Continuous) -> f64 {
    let diff = [fl(d.x[0]) - c.x[0], fl(d.x[1]) - c.x[1]];
    diff.iter().fold(0., |store: f64, item| store.max(*item))
}

fn max_abs_diff(a: &Matrix<Real>, b: &Matrix<Real>) -> f64 {
    let mut m: f64 = 0.;
    for i in 0..a.nrows() {
        for j in 0..a.ncols() {
            m = m.max((fl(a.get(i, j)) - fl(b.get(i, j))).abs());
        }
    }
    m
}

#[test]
fn compare_continuous_discrete() {
    let dt = 0.001;
    let eps = 1e-12;
    let sim_time = 20usize;
    let steps = (sim_time as f64 / dt) as usize;

    let mut cont = Continuous { a: A_REGULAR, x: [0., 0.] };
    let mut discr = Discrete::new(&A_REGULAR, dt, eps);

    for i in 0..steps {
        let t = i as f64 * dt;
        let u = if t < 5. { 0. } else { 1. };

        cont.step(u, dt);
        discr.step(u);

        if max_diff(&discr, &cont) > 0.0001 {
            panic!("Continuous does not equal discrete form");
        }
    }
}

#[test]
fn compare_continuous_discrete_async() {
    let dt_discr = 0.1;
    let dt_cont = 0.001;
    let eps = 1e-12;
    let sim_time = 20usize;
    let steps = (sim_time as f64 / dt_cont) as usize;
    let discr_every = (dt_discr / dt_cont) as usize;

    let mut cont = Continuous { a: A_REGULAR, x: [0., 0.] };
    let mut discr = Discrete::new(&A_REGULAR, dt_discr, eps);

    for i in 0..steps {
        let t = i as f64 * dt_cont;
        // Note the <=: Make sure the continuous model does not get the step earlier
        let u = if t <= 5. { 0. } else { 1. };

        cont.step(u, dt_cont);

        if i % discr_every == 0 && i != 0 {
            discr.step(u);
            if max_diff(&discr, &cont) > 0.0001 {
                panic!("Continuous does not equal discrete form");
            }
        }
    }
}

#[test]
fn compare_continuous_discrete_async_singular() {
    let dt_discr = 0.1;
    let dt_cont = 0.001;
    let eps = 1e-5;
    let sim_time = 20usize;
    let steps = (sim_time as f64 / dt_cont) as usize;
    let discr_every = (dt_discr / dt_cont) as usize;

    let mut cont = Continuous { a: A_SINGULAR, x: [0., 0.] };
    let mut discr = Discrete::new(&A_SINGULAR, dt_discr, eps);

    for i in 0..steps {
        let t = i as f64 * dt_cont;
        // Note the <=: Make sure the continuous model does not get the step earlier
        let u = if t <= 5. { 0. } else { 1. };

        cont.step(u, dt_cont);

        if i % discr_every == 0 && i != 0 {
            discr.step(u);
            if max_diff(&discr, &cont) > 0.0001 {
                panic!("Continuous does not equal discrete form");
            }
        }
    }
}

#[test]
fn exponential_of_a_sum_of_steps_is_the_product() {
    let a = ContinuousSystemMatrix(mat(2, 2, &A_REGULAR));
    let eps = re(1e-9);
    let f1 = mat_a_to_mat_f(&a, re(0.05), eps).0;
    let f2 = mat_a_to_mat_f(&a, re(0.1), eps).0;
    let product = f1.mul(&f1);
    assert!(max_abs_diff(&f2, &product) <= 1e-6);
}

#[test]
fn closed_form_and_series_input_matrices_agree() {
    let a = ContinuousSystemMatrix(mat(2, 2, &A_REGULAR));
    let b = ContinuousInputMatrix(mat(2, 1, &B));
    let dt = re(0.1);
    let eps = re(1e-9);
    let closed = continuous_to_discrete(&a, &b, dt, eps).mat_h.0;
    let series = calc_mat_h(&a, &b, dt, eps).0;
    assert!(max_abs_diff(&closed, &series) <= 1e-6);
}

#[test]
fn singular_system_uses_the_series() {
    let a = ContinuousSystemMatrix(mat(2, 2, &A_SINGULAR));
    let b = ContinuousInputMatrix(mat(2, 1, &B));
    assert!(try_inverse(&a.0).is_none());
    let sys = continuous_to_discrete(&a, &b, re(0.1), re(1e-5));
    let series = calc_mat_h(&a, &b, re(0.1), re(1e-5)).0;
    assert_eq!(max_abs_diff(&sys.mat_h.0, &series), 0.);
}

#[test]
fn discretisation_error_shrinks_with_the_step() {
    fn worst(dt_cont: f64) -> f64 {
        let dt_discr = 0.1;
        let steps = (5.0 / dt_cont) as usize;
        let every = (dt_discr / dt_cont).round() as usize;
        let mut cont = Continuous { a: A_REGULAR, x: [0., 0.] };
        let mut discr = Discrete::new(&A_REGULAR, dt_discr, 1e-9);
        let mut worst: f64 = 0.;
        for i in 0..steps {
            cont.step(1., dt_cont);
            if (i + 1) % every == 0 {
                discr.step(1.);
                for k in 0..2 {
                    worst = worst.max((fl(discr.x[k]) - cont.x[k]).abs());
                }
            }
        }
        worst
    }
    let coarse = worst(0.01);
    let fine = worst(0.001);
    let finer = worst(0.0001);
    assert!(fine < coarse);
    assert!(finer < fine);
    assert!(finer < 0.0001);
}

#[test]
fn exponential_of_zero_is_identity() {
    let a = ContinuousSystemMatrix(Matrix::zeros(3, 3));
    let f = mat_a_to_mat_f(&a, re(0.1), re(1e-9)).0;
    assert_eq!(max_abs_diff(&f, &Matrix::identity(3)), 0.);
}

#[test]
fn exponential_of_diagonal_matches_scalar_exponential() {
    let a = ContinuousSystemMatrix(mat(2, 2, &[-1., 0., 0., 2.]));
    let f = mat_a_to_mat_f(&a, re(0.1), re(1e-9)).0;
    assert!((fl(f.get(0, 0)) - (-0.1f64).exp()).abs() < 1e-7);
    assert!((fl(f.get(1, 1)) - (0.2f64).exp()).abs() < 1e-7);
    assert_eq!(f.get(0, 1).raw, 0);
    // the integral of exp(-v) over [0, 0.1]
    let b = ContinuousInputMatrix(mat(2, 1, &[1., 1.]));
    let h = continuous_to_discrete(&a, &b, re(0.1), re(1e-9)).mat_h.0;
    assert!((fl(h.get(0, 0)) - (1. - (-0.1f64).exp())).abs() < 1e-7);
    assert!((fl(h.get(1, 0)) - ((0.2f64).exp() - 1.) / 2.).abs() < 1e-7);
}

#[test]
fn inverse_of_a_regular_matrix() {
    let m = mat(2, 2, &[4., 7., 2., 6.]);
    let inv = try_inverse(&m).unwrap();
    assert_eq!(inv.get(0, 0).raw, 600_000_000);
    assert_eq!(inv.get(0, 1).raw, -700_000_000);
    assert_eq!(inv.get(1, 0).raw, -200_000_000);
    assert_eq!(inv.get(1, 1).raw, 400_000_000);
    assert!(try_inverse(&mat(2, 2, &[1., 2., 2., 4.])).is_none());
}
