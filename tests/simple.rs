use kalmanfilter::kf::{ConfigError, KalmanFilter, KalmanFilterBuilder};
use kalmanfilter::matrix::{vec_add, Matrix};
use kalmanfilter::nt::{
    ContinuousInputMatrix, ContinuousSystemMatrix, CovarianceMatrix, DiscreteInputMatrix,
    DiscreteSystemMatrix, InputVector, Measurement, MeasurementMatrixRow,
    MeasurementNoiseVariance, StateVector, SystemNoiseVarianceMatrix,
};
use kalmanfilter::scalar::{Real, Scalar};
use kalmanfilter::systems::continuous_to_discrete;

fn re(x: f64) -> Real {
    Real::from_raw((x * 1e9).round() as i64)
}

fn fl(x: Real) -> f64 {
    assert!(x.is_finite());
    x.raw as f64 / 1e9
}

fn mat(nrows: usize, ncols: usize, data: &[f64]) -> Matrix<Real> {
    let mut rows = Vec::new();
    for i in 0..nrows {
        rows.push(data[i * ncols..(i + 1) * ncols].iter().map(|x| re(*x)).collect());
    }
    Matrix::from_rows(rows).unwrap()
}

fn vector(data: &[f64]) -> Vec<Real> {
    data.iter().map(|x| re(*x)).collect()
}

/// The noise-free discrete model `x <- F x + H u`, `y = C x`, of the stable
/// two-state example.
struct RealWorld {
    f: DiscreteSystemMatrix<Real>,
    h: DiscreteInputMatrix<Real>,
    c: Vec<Real>,
    x: Vec<Real>,
}

impl RealWorld {
    fn new(dt: f64, eps: f64) -> RealWorld {
        let sys = continuous_to_discrete(
            &ContinuousSystemMatrix(mat(2, 2, &[-3., 1.5, 0.5, -2.])),
            &ContinuousInputMatrix(mat(2, 1, &[1., 0.])),
            re(dt),
            re(eps),
        );
        RealWorld { f: sys.mat_f, h: sys.mat_h, c: vector(&[0., 2.]), x: vector(&[0., 0.]) }
    }

    fn step(&mut self, u: &InputVector<Real>) -> Real {
        let fx = self.f.0.mul_vec(&self.x);
        let hu = self.h.0.mul_vec(&u.0);
        self.x = vec_add(&fx, &hu);
        let mut y = Real::zero();
        for k in 0..2 {
            y = y.add(self.c[k].mul(self.x[k]));
        }
        y
    }
}

fn filter_for(rw: &RealWorld) -> KalmanFilter<Real> {
    KalmanFilterBuilder::with_numstates_and_numinputs(2, 1)
        .with_system_matrix(rw.f.clone()).unwrap()
        .with_input_matrix(rw.h.clone()).unwrap()
        .with_system_noise_variances(SystemNoiseVarianceMatrix(mat(2, 2, &[0.01, 0., 0., 0.01]))).unwrap()
        .with_initial_state(
            StateVector(vector(&[0., 0.])),
            CovarianceMatrix(mat(2, 2, &[100., 0., 0., 100.])),
        ).unwrap()
        .build()
}

#[test]
fn simple_linear_model() {
    let dt = 0.01;
    let mut rw = RealWorld::new(dt, 1e-5);
    let sim_time: usize = 2;
    let steps = (sim_time as f64 / dt) as usize;

    let mut kf = filter_for(&rw);

    for i in 0..steps {
        let t = i as f64 * dt;
        let u = if t <= 1. { 0. } else { 1. };
        let u = InputVector(vector(&[u]));
        let y = rw.step(&u);
        kf.predict(&u);
        let pred = kf.measure(
            Measurement(y),
            MeasurementMatrixRow(rw.c.clone()),
            MeasurementNoiseVariance(re(0.1)),
        );
        let diff: Vec<f64> = (0..2).map(|k| fl(pred.vec_state.0[k]) - fl(rw.x[k])).collect();
        if diff.iter().fold(0., |store: f64, item| store.max(*item)) > 0.01 {
            println!("This KalmanFilter is not good.");
        }
    }
}

#[test]
fn filter_converges_on_a_noise_free_model() {
    let dt = 0.01;
    let mut rw = RealWorld::new(dt, 1e-9);
    rw.x = vector(&[1., -2.]);
    let mut kf = filter_for(&rw);
    let mut last = f64::MAX;
    for i in 0..1000 {
        let u = InputVector(vector(&[if i % 200 < 100 { 1. } else { 0. }]));
        let y = rw.step(&u);
        kf.predict(&u);
        let est = kf.measure(
            Measurement(y),
            MeasurementMatrixRow(rw.c.clone()),
            MeasurementNoiseVariance(re(0.1)),
        );
        last = (0..2).map(|k| (fl(est.vec_state.0[k]) - fl(rw.x[k])).abs()).fold(0., f64::max);
    }
    assert!(last < 0.01, "estimate error {}", last);
}

#[test]
fn builder_defaults() {
    let kf: KalmanFilter<Real> = KalmanFilterBuilder::with_numstates_and_numinputs(3, 2).into();
    assert_eq!(kf.num_states(), 3);
    assert_eq!(kf.num_inputs(), 2);
    let st = kf.state();
    assert_eq!(st.vec_state.0.len(), 3);
    for i in 0..3 {
        assert_eq!(st.vec_state.0[i].raw, 0);
        for j in 0..3 {
            let expected = if i == j { 1_000_000_000 } else { 0 };
            assert_eq!(st.mat_covariances.0.get(i, j).raw, expected);
        }
    }
}

#[test]
fn predict_computes_the_time_update() {
    let mut kf = KalmanFilterBuilder::with_numstates_and_numinputs(2, 1)
        .with_system_matrix(DiscreteSystemMatrix(mat(2, 2, &[1., 2., 0., 1.]))).unwrap()
        .with_input_matrix(DiscreteInputMatrix(mat(2, 1, &[0.5, 1.]))).unwrap()
        .with_system_noise_variances(SystemNoiseVarianceMatrix(mat(2, 2, &[0.1, 0., 0., 0.2]))).unwrap()
        .with_initial_state(StateVector(vector(&[1., 3.])), CovarianceMatrix(mat(2, 2, &[2., 0., 0., 1.]))).unwrap()
        .build();
    let st = kf.predict(&InputVector(vector(&[2.])));
    // x = F x + H u = [1 + 6 + 1, 3 + 2]
    assert_eq!(fl(st.vec_state.0[0]), 8.);
    assert_eq!(fl(st.vec_state.0[1]), 5.);
    // P = F P F^T + Q = [[6.1, 2], [2, 1.2]]
    let p = &st.mat_covariances.0;
    assert_eq!(fl(p.get(0, 0)), 6.1);
    assert_eq!(fl(p.get(0, 1)), 2.);
    assert_eq!(fl(p.get(1, 0)), 2.);
    assert_eq!(fl(p.get(1, 1)), 1.2);
}

#[test]
fn measure_computes_the_scalar_update() {
    let mut kf = KalmanFilterBuilder::with_numstates_and_numinputs(2, 1)
        .with_initial_state(StateVector(vector(&[1., 2.])), CovarianceMatrix(mat(2, 2, &[4., 0., 0., 1.]))).unwrap()
        .build();
    // c = [1, 0], r = 1: S = 5, K = [0.8, 0], residual = 6 - 1 = 5
    let st = kf.measure(
        Measurement(re(6.)),
        MeasurementMatrixRow(vector(&[1., 0.])),
        MeasurementNoiseVariance(re(1.)),
    );
    assert_eq!(fl(st.vec_state.0[0]), 5.);
    assert_eq!(fl(st.vec_state.0[1]), 2.);
    let p = &st.mat_covariances.0;
    assert_eq!(fl(p.get(0, 0)), 0.8);
    assert_eq!(fl(p.get(0, 1)), 0.);
    assert_eq!(fl(p.get(1, 1)), 1.);
}

#[test]
fn zero_row_with_noise_leaves_the_estimate() {
    let mut kf = KalmanFilterBuilder::with_numstates_and_numinputs(2, 1)
        .with_initial_state(StateVector(vector(&[1.5, -2.])), CovarianceMatrix(mat(2, 2, &[3., 1., 1., 2.]))).unwrap()
        .build();
    let st = kf.measure(
        Measurement(re(7.)),
        MeasurementMatrixRow(vector(&[0., 0.])),
        MeasurementNoiseVariance(re(0.1)),
    );
    assert_eq!(fl(st.vec_state.0[0]), 1.5);
    assert_eq!(fl(st.vec_state.0[1]), -2.);
    assert_eq!(fl(st.mat_covariances.0.get(0, 1)), 1.);
}

#[test]
fn zero_row_without_noise_is_the_documented_degeneracy() {
    let mut kf = KalmanFilterBuilder::with_numstates_and_numinputs(2, 1)
        .with_initial_state(StateVector(vector(&[1.5, -2.])), CovarianceMatrix(mat(2, 2, &[3., 1., 1., 2.]))).unwrap()
        .build();
    let st = kf.measure(
        Measurement(re(7.)),
        MeasurementMatrixRow(vector(&[0., 0.])),
        MeasurementNoiseVariance(Real::zero()),
    );
    // S = 0, so the gain and the state are non-finite
    assert!(!st.vec_state.0[0].is_finite());
    assert!(!st.vec_state.0[1].is_finite());
}

#[test]
fn builder_reports_each_mismatched_dimension() {
    let b = || KalmanFilterBuilder::<Real>::with_numstates_and_numinputs(2, 1);
    assert_eq!(
        b().with_system_matrix(DiscreteSystemMatrix(mat(2, 3, &[0.; 6]))).err(),
        Some(ConfigError::SystemMatrix { rows: 2, cols: 3 })
    );
    assert_eq!(
        b().with_input_matrix(DiscreteInputMatrix(mat(2, 2, &[0.; 4]))).err(),
        Some(ConfigError::InputMatrix { rows: 2, cols: 2 })
    );
    assert_eq!(
        b().with_system_noise_variances(SystemNoiseVarianceMatrix(mat(1, 2, &[0.; 2]))).err(),
        Some(ConfigError::SystemNoiseVariances { rows: 1, cols: 2 })
    );
    assert_eq!(
        b().with_initial_state(StateVector(vector(&[0.; 3])), CovarianceMatrix(mat(2, 2, &[0.; 4]))).err(),
        Some(ConfigError::InitialState { len: 3 })
    );
    assert_eq!(
        b().with_initial_state(StateVector(vector(&[0.; 2])), CovarianceMatrix(mat(3, 3, &[0.; 9]))).err(),
        Some(ConfigError::InitialCovariance { rows: 3, cols: 3 })
    );
    // rows of different lengths are refused too
    let ragged = Matrix { rows: vec![vector(&[1., 0.]), vector(&[1.])], cols: 2 };
    assert_eq!(
        b().with_system_matrix(DiscreteSystemMatrix(ragged)).err(),
        Some(ConfigError::SystemMatrix { rows: 2, cols: 2 })
    );
    assert!(b().with_input_matrix(DiscreteInputMatrix(mat(2, 1, &[1., 2.]))).is_ok());
}
