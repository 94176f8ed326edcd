use vstd::prelude::*;

use crate::matrix::{
    all_within, identity_spec, mat_add_spec, mat_div_spec, mat_mul_spec, mat_scale_spec,
    mat_sub_spec, Matrix,
};
use crate::linalg::{inverse_spec, try_inverse};
use crate::nt::{ContinuousInputMatrix, ContinuousSystemMatrix, DiscreteInputMatrix, DiscreteSystemMatrix};
use crate::scalar::Scalar;

verus! {

/// Index of the last term a series may reach: with the leading identity of the
/// exponential series, at most twenty terms are summed.
pub const LAST_TERM: usize = 19;

/// Term `v` (from 1 on) of a series whose first term is `first` and whose term `v`
/// is term `v - 1` times `adt`, divided by `v`; all matrices are `n` by `n`.
pub open spec fn series_term<N: Scalar>(first: Seq<Seq<N>>, adt: Seq<Seq<N>>, n: int, v: int) -> Seq<
    Seq<N>,
>
    decreases v,
{
    if v <= 1 {
        first
    } else {
        mat_div_spec(mat_mul_spec(series_term(first, adt, n, v - 1), adt, n), N::from_int_spec(v))
    }
}

/// Sum of terms `1..=v` of that series, accumulated in order.
pub open spec fn series_sum<N: Scalar>(first: Seq<Seq<N>>, adt: Seq<Seq<N>>, n: int, v: int) -> Seq<
    Seq<N>,
>
    decreases v,
{
    if v <= 1 {
        first
    } else {
        mat_add_spec(series_sum(first, adt, n, v - 1), series_term(first, adt, n, v))
    }
}

/// The index of the last term summed when the terms are looked at from index `v` on:
/// the first term whose entries are all within `eps`, or `LAST_TERM`.
pub open spec fn series_stop<N: Scalar>(
    first: Seq<Seq<N>>,
    adt: Seq<Seq<N>>,
    n: int,
    eps: N,
    v: int,
) -> int
    decreases LAST_TERM - v,
{
    if v >= LAST_TERM || all_within(series_term(first, adt, n, v), eps) {
        v
    } else {
        series_stop(first, adt, n, eps, v + 1)
    }
}

/// The truncated series: terms `1` to the first index from `2` on whose term is within `eps`.
pub open spec fn truncated_series<N: Scalar>(first: Seq<Seq<N>>, adt: Seq<Seq<N>>, n: int, eps: N) -> Seq<
    Seq<N>,
> {
    series_sum(first, adt, n, series_stop(first, adt, n, eps, 2))
}

/// `F = exp(A dt)`, as `I + (A dt) + (A dt)^2 / 2! + ...`, truncated.
pub open spec fn discrete_f<N: Scalar>(a: Seq<Seq<N>>, n: int, dt: N, eps: N) -> Seq<Seq<N>> {
    let adt = mat_scale_spec(a, dt);
    mat_add_spec(identity_spec(n), truncated_series(adt, adt, n, eps))
}

/// `H = (I dt + A dt^2 / 2! + A^2 dt^3 / 3! + ...) B`, truncated; `B` has `m` columns.
pub open spec fn series_h<N: Scalar>(a: Seq<Seq<N>>, b: Seq<Seq<N>>, n: int, m: int, dt: N, eps: N) -> Seq<
    Seq<N>,
> {
    let adt = mat_scale_spec(a, dt);
    mat_mul_spec(truncated_series(mat_scale_spec(identity_spec(n), dt), adt, n, eps), b, m)
}

/// `H = A^-1 (F - I) B` for an inverse `inv` of `A`; `B` has `m` columns.
pub open spec fn closed_form_h<N: Scalar>(inv: Seq<Seq<N>>, f: Seq<Seq<N>>, b: Seq<Seq<N>>, n: int, m: int) -> Seq<
    Seq<N>,
> {
    mat_mul_spec(mat_mul_spec(inv, mat_sub_spec(f, identity_spec(n)), n), b, m)
}

/// The discrete model `x[k+1] = F x[k] + H u[k]`.
pub struct DiscreteSystemEqMatrices<N> {
    pub mat_f: DiscreteSystemMatrix<N>,
    pub mat_h: DiscreteInputMatrix<N>,
}

/// Sums the series of `series_term` from `first`, stopping as `truncated_series` says.
fn power_series<N: Scalar>(first: &Matrix<N>, adt: &Matrix<N>, eps: N) -> (r: Matrix<N>)
    requires
        first.is_shape(adt.nrows_spec(), adt.nrows_spec()),
        adt.is_shape(adt.nrows_spec(), adt.nrows_spec()),
    ensures
        r.is_shape(adt.nrows_spec(), adt.nrows_spec()),
        r@ == truncated_series(first@, adt@, adt.nrows_spec(), eps),
{
    let n = adt.nrows();
    let ghost nn = n as int;
    let mut term = first.duplicate();
    let mut sum = first.duplicate();
    let mut k: usize = 1;
    let mut stopped = false;
    while !stopped
        invariant
            adt.is_shape(nn, nn),
            term.is_shape(nn, nn),
            sum.is_shape(nn, nn),
            1 <= k <= LAST_TERM,
            term@ == series_term(first@, adt@, nn, k as int),
            sum@ == series_sum(first@, adt@, nn, k as int),
            stopped ==> series_stop(first@, adt@, nn, eps, 2) == k,
            !stopped ==> k < LAST_TERM && series_stop(first@, adt@, nn, eps, 2) == series_stop(
                first@,
                adt@,
                nn,
                eps,
                k as int + 1,
            ),
        decreases LAST_TERM - k,
    {
        k = k + 1;
        let divisor = N::from_int(k as i64);
        term = term.mul(adt).div_scalar(divisor);
        sum = sum.add(&term);
        let small = term.all_within(eps);
        if k >= LAST_TERM || small {
            stopped = true;
        }
    }
    sum
}

/// `F = exp(A dt)` by its power series: terms are added while the newest one still has
/// an entry beyond `eps` in absolute value, up to twenty terms.
pub fn mat_a_to_mat_f<N: Scalar>(mat_a: &ContinuousSystemMatrix<N>, dt: N, eps: N) -> (r: DiscreteSystemMatrix<N>)
    requires
        mat_a.0.is_shape(mat_a.0.nrows_spec(), mat_a.0.nrows_spec()),
    ensures
        r.0.is_shape(mat_a.0.nrows_spec(), mat_a.0.nrows_spec()),
        r.0@ == discrete_f(mat_a.0@, mat_a.0.nrows_spec(), dt, eps),
{
    let n = mat_a.0.nrows();
    let adt = mat_a.0.scale(dt);
    let series = power_series(&adt, &adt, eps);
    DiscreteSystemMatrix(Matrix::identity(n).add(&series))
}

/// `H = (INTEGRAL over [0, dt] of exp(A v) dv) B` by its power series, with the
/// stopping rule of `mat_a_to_mat_f`; this form needs no inverse of `A`.
pub fn calc_mat_h<N: Scalar>(mat_a: &ContinuousSystemMatrix<N>, mat_b: &ContinuousInputMatrix<N>, dt: N, eps: N) -> (r:
    DiscreteInputMatrix<N>)
    requires
        mat_a.0.is_shape(mat_a.0.nrows_spec(), mat_a.0.nrows_spec()),
        mat_b.0.is_shape(mat_a.0.nrows_spec(), mat_b.0.ncols_spec()),
    ensures
        r.0.is_shape(mat_a.0.nrows_spec(), mat_b.0.ncols_spec()),
        r.0@ == series_h(
            mat_a.0@,
            mat_b.0@,
            mat_a.0.nrows_spec(),
            mat_b.0.ncols_spec(),
            dt,
            eps,
        ),
{
    let n = mat_a.0.nrows();
    let adt = mat_a.0.scale(dt);
    let first = Matrix::identity(n).scale(dt);
    let series = power_series(&first, &adt, eps);
    DiscreteInputMatrix(series.mul(&mat_b.0))
}

/// Converts the continuous model `x' = A x + B u` into the discrete model for time
/// step `dt`: `F = exp(A dt)`, and `H = A^-1 (F - I) B` when `A` has an inverse,
/// else `H` by its own series (see `calc_mat_h`).
pub fn continuous_to_discrete<N: Scalar>(
    mat_a: &ContinuousSystemMatrix<N>,
    mat_b: &ContinuousInputMatrix<N>,
    dt: N,
    eps: N,
) -> (r: DiscreteSystemEqMatrices<N>)
    requires
        mat_a.0.is_shape(mat_a.0.nrows_spec(), mat_a.0.nrows_spec()),
        mat_b.0.is_shape(mat_a.0.nrows_spec(), mat_b.0.ncols_spec()),
    ensures
        r.mat_f.0.is_shape(mat_a.0.nrows_spec(), mat_a.0.nrows_spec()),
        r.mat_f.0@ == discrete_f(mat_a.0@, mat_a.0.nrows_spec(), dt, eps),
        r.mat_h.0.is_shape(mat_a.0.nrows_spec(), mat_b.0.ncols_spec()),
        match inverse_spec(mat_a.0@) {
            Some(inv) => r.mat_h.0@ == closed_form_h(
                inv,
                r.mat_f.0@,
                mat_b.0@,
                mat_a.0.nrows_spec(),
                mat_b.0.ncols_spec(),
            ),
            None => r.mat_h.0@ == series_h(
                mat_a.0@,
                mat_b.0@,
                mat_a.0.nrows_spec(),
                mat_b.0.ncols_spec(),
                dt,
                eps,
            ),
        },
{
    let n = mat_a.0.nrows();
    let mat_f = mat_a_to_mat_f(mat_a, dt, eps);
    let mat_h = match try_inverse(&mat_a.0) {
        Some(inv) => {
            let f_minus_i = mat_f.0.sub(&Matrix::identity(n));
            DiscreteInputMatrix(inv.mul(&f_minus_i).mul(&mat_b.0))
        },
        None => calc_mat_h(mat_a, mat_b, dt, eps),
    };
    DiscreteSystemEqMatrices { mat_f, mat_h }
}

} // verus!
