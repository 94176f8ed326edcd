use vstd::prelude::*;

use crate::matrix::{
    all_finite, has_shape, lemma_dot_with_zeros, zero_vec, column,
    dot, dot_spec, mat_add_spec, mat_mul_spec, mat_sub_spec, mat_vec_spec, outer, outer_spec,
    transpose_spec, vec_add, vec_add_spec, vec_div, vec_div_spec, vec_scale, vec_scale_spec,
    Matrix,
};
use crate::nt::{
    CovarianceMatrix, DiscreteInputMatrix, DiscreteSystemMatrix, InputVector, Measurement,
    MeasurementMatrixRow, MeasurementNoiseVariance, StateVector, SystemNoiseVarianceMatrix,
};
use crate::scalar::Scalar;

verus! {

/// State after `predict`: `F x + H u`.
pub open spec fn predicted_state<N: Scalar>(f: Seq<Seq<N>>, h: Seq<Seq<N>>, x: Seq<N>, u: Seq<N>) -> Seq<N> {
    vec_add_spec(mat_vec_spec(f, x), mat_vec_spec(h, u))
}

/// Covariance after `predict`: `F P F^T + Q`, for `n` states.
pub open spec fn predicted_covariance<N: Scalar>(
    f: Seq<Seq<N>>,
    p: Seq<Seq<N>>,
    q: Seq<Seq<N>>,
    n: int,
) -> Seq<Seq<N>> {
    mat_add_spec(mat_mul_spec(mat_mul_spec(f, p, n), transpose_spec(f, n), n), q)
}

/// Innovation variance `S = c P c^T + r`.
pub open spec fn innovation_variance<N: Scalar>(p: Seq<Seq<N>>, c: Seq<N>, r: N) -> N {
    dot_spec(c, mat_vec_spec(p, c)).add_spec(r)
}

/// Kalman gain `K = P c^T / S`, a column vector.
pub open spec fn gain<N: Scalar>(p: Seq<Seq<N>>, c: Seq<N>, r: N) -> Seq<N> {
    vec_div_spec(mat_vec_spec(p, c), innovation_variance(p, c, r))
}

/// State after `measure`: `x + K (y - c x)`.
pub open spec fn measured_state<N: Scalar>(
    x: Seq<N>,
    p: Seq<Seq<N>>,
    c: Seq<N>,
    y: N,
    r: N,
) -> Seq<N> {
    vec_add_spec(x, vec_scale_spec(gain(p, c, r), y.sub_spec(dot_spec(c, x))))
}

/// Covariance after `measure`: `P - K c P`.
pub open spec fn measured_covariance<N: Scalar>(p: Seq<Seq<N>>, c: Seq<N>, r: N) -> Seq<Seq<N>> {
    mat_sub_spec(p, mat_mul_spec(outer_spec(gain(p, c, r), c), p, c.len() as int))
}

/// With a zero row, `P c^T` is zero and the innovation variance is `r`.
proof fn lemma_zero_row_products<N: Scalar>(p: Seq<Seq<N>>, c: Seq<N>, r: N, n: int)
    requires
        has_shape(p, n, n),
        forall|i: int| 0 <= i < p.len() ==> all_finite(#[trigger] p[i]),
        c == zero_vec::<N>(n),
        r.is_finite_spec(),
    ensures
        mat_vec_spec(p, c) == zero_vec::<N>(n),
        innovation_variance(p, c, r) == r,
{
    let pc = mat_vec_spec(p, c);
    assert forall|i: int| 0 <= i < n implies #[trigger] pc[i] == N::zero_spec() by {
        lemma_dot_with_zeros(p[i], c, n);
    }
    assert(pc =~= zero_vec(n));
    N::lemma_zero_is_finite();
    lemma_dot_with_zeros(pc, c, n);
    N::lemma_zero_laws(r);
}

/// A measurement row of zeros with a finite, non-zero noise variance leaves the
/// estimate as it was: the gain is zero, so neither the state nor the covariance moves.
pub proof fn lemma_zero_row_keeps_estimate<N: Scalar>(
    x: Seq<N>,
    p: Seq<Seq<N>>,
    c: Seq<N>,
    y: N,
    r: N,
)
    requires
        has_shape(p, x.len() as int, x.len() as int),
        all_finite(x),
        forall|i: int| 0 <= i < p.len() ==> all_finite(#[trigger] p[i]),
        c == zero_vec::<N>(x.len() as int),
        y.is_finite_spec(),
        r.is_finite_spec(),
        !r.is_zero_spec(),
    ensures
        measured_state(x, p, c, y, r) == x,
        measured_covariance(p, c, r) == p,
{
    let n = x.len() as int;
    lemma_zero_row_products(p, c, r, n);
    let k = gain(p, c, r);
    N::lemma_zero_laws(r);
    assert forall|i: int| 0 <= i < n implies #[trigger] k[i] == N::zero_spec() by {
        assert(mat_vec_spec(p, c)[i] == N::zero_spec());
    }
    assert(k =~= zero_vec(n));
    N::lemma_zero_is_finite();
    lemma_dot_with_zeros(x, c, n);
    let e = y.sub_spec(dot_spec(c, x));
    N::lemma_zero_laws(y);
    assert(e.is_finite_spec());
    assert(measured_state(x, p, c, y, r) =~= x) by {
        assert forall|i: int| 0 <= i < n implies #[trigger] measured_state(x, p, c, y, r)[i]
            == x[i] by {
            N::lemma_zero_laws(e);
            assert(k[i].mul_spec(e) == N::zero_spec());
            assert(x[i].is_finite_spec());
            N::lemma_zero_laws(x[i]);
        }
    }
    lemma_zero_outer_times(p, c, k, n);
    let kcp = mat_mul_spec(outer_spec(k, c), p, n);
    assert(measured_covariance(p, c, r) =~= p) by {
        assert forall|i: int| 0 <= i < n implies #[trigger] measured_covariance(p, c, r)[i] == p[i] by {
            assert(all_finite(p[i]));
            assert forall|j: int| 0 <= j < n implies #[trigger] kcp[i][j] == N::zero_spec() by {
            }
            assert forall|j: int| 0 <= j < n implies #[trigger] measured_covariance(p, c, r)[i][j] == p[i][j] by {
                N::lemma_zero_laws(p[i][j]);
            }
            assert(measured_covariance(p, c, r)[i] =~= p[i]);
        }
    }
}

/// `(k c) P` is zero when `k` and `c` are zero vectors and `P` is finite.
proof fn lemma_zero_outer_times<N: Scalar>(p: Seq<Seq<N>>, c: Seq<N>, k: Seq<N>, n: int)
    requires
        has_shape(p, n, n),
        forall|i: int| 0 <= i < p.len() ==> all_finite(#[trigger] p[i]),
        c == zero_vec::<N>(n),
        k == zero_vec::<N>(n),
    ensures
        forall|i: int, j: int|
            0 <= i < n && 0 <= j < n ==> #[trigger] mat_mul_spec(outer_spec(k, c), p, n)[i][j]
                == N::zero_spec(),
{
    let kc = outer_spec(k, c);
    N::lemma_zero_is_finite();
    N::lemma_zero_laws(N::zero_spec());
    assert forall|i: int, j: int| 0 <= i < n && 0 <= j < n implies #[trigger] mat_mul_spec(kc, p, n)[i][j]
        == N::zero_spec() by {
        assert forall|t: int| 0 <= t < n implies #[trigger] kc[i][t] == N::zero_spec() by {
            assert(k[i] == N::zero_spec());
            assert(c[t] == N::zero_spec());
        }
        assert(kc[i] =~= zero_vec(n));
        let col = column(p, j);
        assert forall|t: int| 0 <= t < n implies (#[trigger] col[t]).is_finite_spec() by {
            assert(all_finite(p[t]));
        }
        lemma_dot_with_zeros(col, kc[i], n);
    }
}

/// A measurement row of zeros with zero noise variance makes the innovation variance
/// zero; the gain is then non-finite and so is every entry of the new state.
pub proof fn lemma_zero_row_zero_noise_degenerates<N: Scalar>(
    x: Seq<N>,
    p: Seq<Seq<N>>,
    c: Seq<N>,
    y: N,
    r: N,
)
    requires
        has_shape(p, x.len() as int, x.len() as int),
        forall|i: int| 0 <= i < p.len() ==> all_finite(#[trigger] p[i]),
        c == zero_vec::<N>(x.len() as int),
        r == N::zero_spec(),
    ensures
        innovation_variance(p, c, r) == N::zero_spec(),
        forall|i: int| 0 <= i < x.len() ==> !(#[trigger] measured_state(x, p, c, y, r)[i]).is_finite_spec(),
{
    let n = x.len() as int;
    N::lemma_zero_is_finite();
    N::lemma_zero_laws(r);
    lemma_zero_row_products(p, c, r, n);
    let k = gain(p, c, r);
    let e = y.sub_spec(dot_spec(c, x));
    assert forall|i: int| 0 <= i < n implies !(#[trigger] measured_state(x, p, c, y, r)[i]).is_finite_spec() by {
        N::lemma_division_by_zero(mat_vec_spec(p, c)[i], r);
        N::lemma_non_finite_spreads(k[i], e);
        N::lemma_non_finite_spreads(k[i].mul_spec(e), x[i]);
    }
}

/// A linear Kalman filter: the estimate `(x, P)` and the fixed model `F`, `H`, `Q`.
pub struct KalmanFilter<N> {
    num_states: usize,
    num_inputs: usize,
    mat_f: DiscreteSystemMatrix<N>,
    mat_h: DiscreteInputMatrix<N>,
    mat_q: SystemNoiseVarianceMatrix<N>,
    vec_state: StateVector<N>,
    mat_p: CovarianceMatrix<N>,
}

/// A part handed to `KalmanFilterBuilder` does not have the size that the filter's
/// dimensions ask for; each variant names the part and the size it had.
#[derive(Clone, Copy, Debug, PartialEq, Eq, Structural)]
pub enum ConfigError {
    /// `F` must be `num_states` by `num_states`, or its rows differ in length.
    SystemMatrix { rows: usize, cols: usize },
    /// `H` must be `num_states` by `num_inputs`, or its rows differ in length.
    InputMatrix { rows: usize, cols: usize },
    /// `Q` must be `num_states` by `num_states`, or its rows differ in length.
    SystemNoiseVariances { rows: usize, cols: usize },
    /// The initial state must have `num_states` entries.
    InitialState { len: usize },
    /// The initial covariance must be `num_states` by `num_states`, or its rows differ
    /// in length.
    InitialCovariance { rows: usize, cols: usize },
}

/// Assembles a `KalmanFilter`, checking each part against the declared dimensions.
pub struct KalmanFilterBuilder<N> {
    filter: KalmanFilter<N>,
}

/// Read-only view of a filter's estimate, valid until the filter changes again.
pub struct BorrowedSystemState<'a, N> {
    pub vec_state: &'a StateVector<N>,
    pub mat_covariances: &'a CovarianceMatrix<N>,
}

impl<N: Scalar> KalmanFilter<N> {
    pub closed spec fn num_states_spec(&self) -> int {
        self.num_states as int
    }

    pub closed spec fn num_inputs_spec(&self) -> int {
        self.num_inputs as int
    }

    pub closed spec fn f_spec(&self) -> Seq<Seq<N>> {
        self.mat_f.0@
    }

    pub closed spec fn h_spec(&self) -> Seq<Seq<N>> {
        self.mat_h.0@
    }

    pub closed spec fn q_spec(&self) -> Seq<Seq<N>> {
        self.mat_q.0@
    }

    pub closed spec fn state_spec(&self) -> Seq<N> {
        self.vec_state.0@
    }

    pub closed spec fn covariance_spec(&self) -> Seq<Seq<N>> {
        self.mat_p.0@
    }

    /// Every matrix and vector has the size that the dimensions ask for.
    pub closed spec fn wf(&self) -> bool {
        let n = self.num_states as int;
        &&& self.mat_f.0.is_shape(n, n)
        &&& self.mat_h.0.is_shape(n, self.num_inputs as int)
        &&& self.mat_q.0.is_shape(n, n)
        &&& self.vec_state.0@.len() == n
        &&& self.mat_p.0.is_shape(n, n)
    }

    pub fn num_states(&self) -> (r: usize)
        ensures
            r == self.num_states_spec(),
    {
        self.num_states
    }

    pub fn num_inputs(&self) -> (r: usize)
        ensures
            r == self.num_inputs_spec(),
    {
        self.num_inputs
    }

    /// The current estimate.
    pub fn state(&self) -> (r: BorrowedSystemState<'_, N>)
        ensures
            r.vec_state.0@ == self.state_spec(),
            r.mat_covariances.0@ == self.covariance_spec(),
    {
        BorrowedSystemState { vec_state: &self.vec_state, mat_covariances: &self.mat_p }
    }

    /// Time update with input `u`: `x <- F x + H u`, `P <- F P F^T + Q`.
    pub fn predict(&mut self, u: &InputVector<N>) -> (r: BorrowedSystemState<'_, N>)
        requires
            old(self).wf(),
            u.0@.len() == old(self).num_inputs_spec(),
        ensures
            final(self).wf(),
            final(self).num_states_spec() == old(self).num_states_spec(),
            final(self).num_inputs_spec() == old(self).num_inputs_spec(),
            final(self).f_spec() == old(self).f_spec(),
            final(self).h_spec() == old(self).h_spec(),
            final(self).q_spec() == old(self).q_spec(),
            final(self).state_spec() == predicted_state(
                old(self).f_spec(),
                old(self).h_spec(),
                old(self).state_spec(),
                u.0@,
            ),
            final(self).covariance_spec() == predicted_covariance(
                old(self).f_spec(),
                old(self).covariance_spec(),
                old(self).q_spec(),
                old(self).num_states_spec(),
            ),
            r.vec_state.0@ == final(self).state_spec(),
            r.mat_covariances.0@ == final(self).covariance_spec(),
    {
        let fx = self.mat_f.0.mul_vec(&self.vec_state.0);
        let hu = self.mat_h.0.mul_vec(&u.0);
        self.vec_state = StateVector(vec_add(&fx, &hu));
        let fp = self.mat_f.0.mul(&self.mat_p.0);
        let ft = self.mat_f.0.transpose();
        let fpft = fp.mul(&ft);
        self.mat_p = CovarianceMatrix(fpft.add(&self.mat_q.0));
        BorrowedSystemState { vec_state: &self.vec_state, mat_covariances: &self.mat_p }
    }

    /// Measurement<N> update with one scalar measurement `y = c x + noise`, the noise
    /// having variance `r`:
    /// `S = c P c^T + r`, `K = P c^T / S`, `x <- x + K (y - c x)`, `P <- P - K c P`.
    ///
    /// Nothing guards against `S = 0` (for instance `c = 0` and `r = 0`): the gain is
    /// then non-finite, and so is the new estimate.
    pub fn measure(
        &mut self,
        y: Measurement<N>,
        rvec_c: MeasurementMatrixRow<N>,
        r: MeasurementNoiseVariance<N>,
    ) -> (res: BorrowedSystemState<'_, N>)
        requires
            old(self).wf(),
            rvec_c.0@.len() == old(self).num_states_spec(),
        ensures
            final(self).wf(),
            final(self).num_states_spec() == old(self).num_states_spec(),
            final(self).num_inputs_spec() == old(self).num_inputs_spec(),
            final(self).f_spec() == old(self).f_spec(),
            final(self).h_spec() == old(self).h_spec(),
            final(self).q_spec() == old(self).q_spec(),
            final(self).state_spec() == measured_state(
                old(self).state_spec(),
                old(self).covariance_spec(),
                rvec_c.0@,
                y.0,
                r.0,
            ),
            final(self).covariance_spec() == measured_covariance(
                old(self).covariance_spec(),
                rvec_c.0@,
                r.0,
            ),
            res.vec_state.0@ == final(self).state_spec(),
            res.mat_covariances.0@ == final(self).covariance_spec(),
    {
        let c = &rvec_c.0;
        let pc = self.mat_p.0.mul_vec(c);
        proof {
            self.mat_p.0.lemma_view_shape();
        }
        let s = dot(c, &pc).add(r.0);
        let vec_k = vec_div(&pc, s);
        let residual = y.0.sub(dot(c, &self.vec_state.0));
        self.vec_state = StateVector(vec_add(&self.vec_state.0, &vec_scale(&vec_k, residual)));
        let kc = outer(&vec_k, c);
        let kcp = kc.mul(&self.mat_p.0);
        self.mat_p = CovarianceMatrix(self.mat_p.0.sub(&kcp));
        BorrowedSystemState { vec_state: &self.vec_state, mat_covariances: &self.mat_p }
    }
}

impl<N: Scalar> KalmanFilterBuilder<N> {
    pub closed spec fn filter_spec(&self) -> KalmanFilter<N> {
        self.filter
    }

    /// A builder for a filter with `num_states` states and `num_inputs` inputs, with
    /// `F = I`, `H = 0`, `Q = 0`, `x = 0` and `P = I` until they are set.
    /// The default covariance is the identity of size `num_states`, so that every
    /// builder yields a well-formed filter.
    pub fn with_numstates_and_numinputs(num_states: usize, num_inputs: usize) -> (r:
        KalmanFilterBuilder<N>)
        ensures
            r.filter_spec().wf(),
            r.filter_spec().num_states_spec() == num_states,
            r.filter_spec().num_inputs_spec() == num_inputs,
            r.filter_spec().f_spec() == crate::matrix::identity_spec::<N>(num_states as int),
            r.filter_spec().h_spec() == crate::matrix::filled_spec(
                num_states as int,
                num_inputs as int,
                N::zero_spec(),
            ),
            r.filter_spec().q_spec() == crate::matrix::filled_spec(
                num_states as int,
                num_states as int,
                N::zero_spec(),
            ),
            r.filter_spec().state_spec() == Seq::new(num_states as nat, |i: int| N::zero_spec()),
            r.filter_spec().covariance_spec() == crate::matrix::identity_spec::<N>(num_states as int),
    {
        let zero_state = Matrix::zeros(1, num_states).row(0);
        KalmanFilterBuilder {
            filter: KalmanFilter {
                num_states,
                num_inputs,
                mat_f: DiscreteSystemMatrix(Matrix::identity(num_states)),
                mat_h: DiscreteInputMatrix(Matrix::zeros(num_states, num_inputs)),
                mat_q: SystemNoiseVarianceMatrix(Matrix::zeros(num_states, num_states)),
                vec_state: StateVector(zero_state),
                mat_p: CovarianceMatrix(Matrix::identity(num_states)),
            },
        }
    }

    /// Installs the system matrix `F`, which must be `num_states` by `num_states`.
    pub fn with_system_matrix(self, mat_f: DiscreteSystemMatrix<N>) -> (r: Result<Self, ConfigError>)
        requires
            self.filter_spec().wf(),
        ensures
            r is Ok <==> mat_f.0.is_shape(self.filter_spec().num_states_spec(), self.filter_spec().num_states_spec()),
            r matches Ok(b) ==> {
                &&& b.filter_spec().num_states_spec() == self.filter_spec().num_states_spec()
                &&& b.filter_spec().num_inputs_spec() == self.filter_spec().num_inputs_spec()
                &&& b.filter_spec().f_spec() == mat_f.0@
                &&& b.filter_spec().h_spec() == self.filter_spec().h_spec()
                &&& b.filter_spec().q_spec() == self.filter_spec().q_spec()
                &&& b.filter_spec().state_spec() == self.filter_spec().state_spec()
                &&& b.filter_spec().covariance_spec() == self.filter_spec().covariance_spec()
                &&& b.filter_spec().wf()
            },
            !(mat_f.0.is_shape(self.filter_spec().num_states_spec(), self.filter_spec().num_states_spec())) ==> r == Err::<Self, ConfigError>(ConfigError::SystemMatrix { rows: mat_f.0.rows@.len() as usize, cols: mat_f.0.cols }),
    {
        if !(mat_f.0.check_shape(self.filter.num_states, self.filter.num_states)) {
            return Err(ConfigError::SystemMatrix { rows: mat_f.0.nrows(), cols: mat_f.0.cols });
        }
        let mut b = self;
        b.filter.mat_f = mat_f;
        Ok(b)
    }

    /// Installs the input matrix `H`, which must be `num_states` by `num_inputs`.
    pub fn with_input_matrix(self, mat_h: DiscreteInputMatrix<N>) -> (r: Result<Self, ConfigError>)
        requires
            self.filter_spec().wf(),
        ensures
            r is Ok <==> mat_h.0.is_shape(self.filter_spec().num_states_spec(), self.filter_spec().num_inputs_spec()),
            r matches Ok(b) ==> {
                &&& b.filter_spec().num_states_spec() == self.filter_spec().num_states_spec()
                &&& b.filter_spec().num_inputs_spec() == self.filter_spec().num_inputs_spec()
                &&& b.filter_spec().f_spec() == self.filter_spec().f_spec()
                &&& b.filter_spec().h_spec() == mat_h.0@
                &&& b.filter_spec().q_spec() == self.filter_spec().q_spec()
                &&& b.filter_spec().state_spec() == self.filter_spec().state_spec()
                &&& b.filter_spec().covariance_spec() == self.filter_spec().covariance_spec()
                &&& b.filter_spec().wf()
            },
            !(mat_h.0.is_shape(self.filter_spec().num_states_spec(), self.filter_spec().num_inputs_spec())) ==> r == Err::<Self, ConfigError>(ConfigError::InputMatrix { rows: mat_h.0.rows@.len() as usize, cols: mat_h.0.cols }),
    {
        if !(mat_h.0.check_shape(self.filter.num_states, self.filter.num_inputs)) {
            return Err(ConfigError::InputMatrix { rows: mat_h.0.nrows(), cols: mat_h.0.cols });
        }
        let mut b = self;
        b.filter.mat_h = mat_h;
        Ok(b)
    }

    /// Installs the process-noise covariance `Q`, which must be `num_states` by `num_states`.
    pub fn with_system_noise_variances(self, mat_q: SystemNoiseVarianceMatrix<N>) -> (r: Result<Self, ConfigError>)
        requires
            self.filter_spec().wf(),
        ensures
            r is Ok <==> mat_q.0.is_shape(self.filter_spec().num_states_spec(), self.filter_spec().num_states_spec()),
            r matches Ok(b) ==> {
                &&& b.filter_spec().num_states_spec() == self.filter_spec().num_states_spec()
                &&& b.filter_spec().num_inputs_spec() == self.filter_spec().num_inputs_spec()
                &&& b.filter_spec().f_spec() == self.filter_spec().f_spec()
                &&& b.filter_spec().h_spec() == self.filter_spec().h_spec()
                &&& b.filter_spec().q_spec() == mat_q.0@
                &&& b.filter_spec().state_spec() == self.filter_spec().state_spec()
                &&& b.filter_spec().covariance_spec() == self.filter_spec().covariance_spec()
                &&& b.filter_spec().wf()
            },
            !(mat_q.0.is_shape(self.filter_spec().num_states_spec(), self.filter_spec().num_states_spec())) ==> r == Err::<Self, ConfigError>(ConfigError::SystemNoiseVariances { rows: mat_q.0.rows@.len() as usize, cols: mat_q.0.cols }),
    {
        if !(mat_q.0.check_shape(self.filter.num_states, self.filter.num_states)) {
            return Err(ConfigError::SystemNoiseVariances { rows: mat_q.0.nrows(), cols: mat_q.0.cols });
        }
        let mut b = self;
        b.filter.mat_q = mat_q;
        Ok(b)
    }

    /// Installs the initial estimate: a state of length `num_states` and a `num_states` by
    /// `num_states` covariance.
    pub fn with_initial_state(self, vec_state: StateVector<N>, mat_covariances: CovarianceMatrix<N>) -> (r: Result<Self, ConfigError>)
        requires
            self.filter_spec().wf(),
        ensures
            r is Ok <==> vec_state.0@.len() == self.filter_spec().num_states_spec() && mat_covariances.0.is_shape(self.filter_spec().num_states_spec(), self.filter_spec().num_states_spec()),
            r matches Ok(b) ==> {
                &&& b.filter_spec().num_states_spec() == self.filter_spec().num_states_spec()
                &&& b.filter_spec().num_inputs_spec() == self.filter_spec().num_inputs_spec()
                &&& b.filter_spec().f_spec() == self.filter_spec().f_spec()
                &&& b.filter_spec().h_spec() == self.filter_spec().h_spec()
                &&& b.filter_spec().q_spec() == self.filter_spec().q_spec()
                &&& b.filter_spec().state_spec() == vec_state.0@
                &&& b.filter_spec().covariance_spec() == mat_covariances.0@
                &&& b.filter_spec().wf()
            },
            !(vec_state.0@.len() == self.filter_spec().num_states_spec()) ==> r == Err::<Self, ConfigError>(ConfigError::InitialState { len: vec_state.0@.len() as usize }),
            vec_state.0@.len() == self.filter_spec().num_states_spec() && !(mat_covariances.0.is_shape(self.filter_spec().num_states_spec(), self.filter_spec().num_states_spec())) ==> r == Err::<Self, ConfigError>(ConfigError::InitialCovariance { rows: mat_covariances.0.rows@.len() as usize, cols: mat_covariances.0.cols }),
    {
        if !(vec_state.0.len() == self.filter.num_states) {
            return Err(ConfigError::InitialState { len: vec_state.0.len() });
        }
        if !(mat_covariances.0.check_shape(self.filter.num_states, self.filter.num_states)) {
            return Err(ConfigError::InitialCovariance { rows: mat_covariances.0.nrows(), cols: mat_covariances.0.cols });
        }
        let mut b = self;
        b.filter.vec_state = vec_state;
        b.filter.mat_p = mat_covariances;
        Ok(b)
    }

    /// The configured filter.
    pub fn build(self) -> (r: KalmanFilter<N>)
        ensures
            r == self.filter_spec(),
    {
        self.filter
    }
}

impl<N: Scalar> From<KalmanFilterBuilder<N>> for KalmanFilter<N> {
    fn from(builder: KalmanFilterBuilder<N>) -> (r: KalmanFilter<N>) {
        builder.build()
    }
}

impl<N: Scalar> vstd::std_specs::convert::FromSpecImpl<KalmanFilterBuilder<N>> for KalmanFilter<N> {
    open spec fn obeys_from_spec() -> bool {
        true
    }

    open spec fn from_spec(v: KalmanFilterBuilder<N>) -> KalmanFilter<N> {
        v.filter_spec()
    }
}

} // verus!
