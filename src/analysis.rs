//! Observability of a discrete system `(F, C)`: the Kalman rank test and the
//! Hautus eigenvalue test.
use vstd::prelude::*;

use crate::linalg::{numeric_rank, rank};
use crate::matrix::{diagonal_spec, mat_mul_spec, mat_sub_spec, Matrix};
use crate::scalar::Scalar;

verus! {

/// `C F^k`, for `n` states.
pub open spec fn obs_block<N: Scalar>(f: Seq<Seq<N>>, c: Seq<Seq<N>>, n: int, k: int) -> Seq<Seq<N>>
    decreases k,
{
    if k <= 0 {
        c
    } else {
        mat_mul_spec(obs_block(f, c, n, k - 1), f, n)
    }
}

/// The stacked observability matrix `[C; C F; ...; C F^(k-1)]`.
pub open spec fn obs_matrix<N: Scalar>(f: Seq<Seq<N>>, c: Seq<Seq<N>>, n: int, k: int) -> Seq<Seq<N>>
    decreases k,
{
    if k <= 0 {
        Seq::empty()
    } else {
        obs_matrix(f, c, n, k - 1) + obs_block(f, c, n, k - 1)
    }
}

/// The smallest index from `k` to `n` whose observability matrix has at least `n` rows
/// and numeric rank `n`.
pub open spec fn index_from<N: Scalar>(f: Seq<Seq<N>>, c: Seq<Seq<N>>, n: int, eps: N, k: int) -> Option<
    usize,
>
    decreases n + 1 - k,
{
    if k > n {
        None
    } else if obs_matrix(f, c, n, k).len() >= n && numeric_rank(obs_matrix(f, c, n, k), n, eps) == n {
        Some(k as usize)
    } else {
        index_from(f, c, n, eps, k + 1)
    }
}

/// The observability index of `(F, C)`, or `None` when even `k = n` blocks do not reach
/// full rank.
pub open spec fn observability_index<N: Scalar>(f: Seq<Seq<N>>, c: Seq<Seq<N>>, n: int, eps: N) -> Option<
    usize,
> {
    index_from(f, c, n, eps, 1)
}

/// The first `k` blocks already determine the state: at least `n` rows, numeric rank `n`.
pub open spec fn full_rank_at<N: Scalar>(f: Seq<Seq<N>>, c: Seq<Seq<N>>, n: int, eps: N, k: int) -> bool {
    obs_matrix(f, c, n, k).len() >= n && numeric_rank(obs_matrix(f, c, n, k), n, eps) == n
}

/// `index_from` finds the smallest full-rank block count from `k` on, if there is one.
proof fn lemma_index_from_smallest<N: Scalar>(f: Seq<Seq<N>>, c: Seq<Seq<N>>, n: int, eps: N, k: int)
    requires
        1 <= k,
        n < usize::MAX,
    ensures
        match index_from(f, c, n, eps, k) {
            Some(j) => k <= j <= n && full_rank_at(f, c, n, eps, j as int) && forall|i: int|
                k <= i < j ==> !#[trigger] full_rank_at(f, c, n, eps, i),
            None => forall|i: int| k <= i <= n ==> !#[trigger] full_rank_at(f, c, n, eps, i),
        },
    decreases n + 1 - k,
{
    if k <= n && !full_rank_at(f, c, n, eps, k) {
        lemma_index_from_smallest(f, c, n, eps, k + 1);
    }
}

/// The Kalman rank test gives the smallest number `k` of blocks `C F^i` whose stack has
/// numeric rank `n`; it gives `None` exactly when no `k` up to `n` has.
pub proof fn lemma_observability_index_is_smallest<N: Scalar>(
    f: Seq<Seq<N>>,
    c: Seq<Seq<N>>,
    n: int,
    eps: N,
)
    requires
        1 <= n < usize::MAX,
    ensures
        match observability_index(f, c, n, eps) {
            Some(k) => 1 <= k <= n && full_rank_at(f, c, n, eps, k as int) && forall|i: int|
                1 <= i < k ==> !#[trigger] full_rank_at(f, c, n, eps, i),
            None => forall|i: int| 1 <= i <= n ==> !#[trigger] full_rank_at(f, c, n, eps, i),
        },
{
    lemma_index_from_smallest(f, c, n, eps, 1);
}

/// Every eigenvalue passing the Hautus test implies that one does: the full criterion
/// is the stronger of the two.
pub proof fn lemma_hautus_full_implies_weak<N: Scalar>(
    f: Seq<Seq<N>>,
    c: Seq<Seq<N>>,
    n: int,
    ls: Seq<N>,
    eps: N,
)
    requires
        n >= 1,
        passing(f, c, n, ls, eps, ls.len() as int).len() == n,
    ensures
        passing(f, c, n, ls, eps, ls.len() as int).len() > 0,
{
}

/// `[l I - F; C]` has numeric rank `n`.
pub open spec fn hautus_passes<N: Scalar>(f: Seq<Seq<N>>, c: Seq<Seq<N>>, n: int, l: N, eps: N) -> bool {
    numeric_rank(mat_sub_spec(diagonal_spec(n, l), f) + c, n, eps) == n
}

/// The first `k` of `ls` that pass the Hautus test, in order.
pub open spec fn passing<N: Scalar>(
    f: Seq<Seq<N>>,
    c: Seq<Seq<N>>,
    n: int,
    ls: Seq<N>,
    eps: N,
    k: int,
) -> Seq<N>
    decreases k,
{
    if k <= 0 {
        Seq::empty()
    } else {
        let p = passing(f, c, n, ls, eps, k - 1);
        if hautus_passes(f, c, n, ls[k - 1], eps) {
            p.push(ls[k - 1])
        } else {
            p
        }
    }
}

/// `F` is `n` by `n` and `C` has `n` columns, with `n >= 1` and at least one row in `C`.
pub open spec fn valid_pair<N: Scalar>(mat_f: &Matrix<N>, mat_c: &Matrix<N>) -> bool {
    &&& mat_f.is_shape(mat_f.nrows_spec(), mat_f.nrows_spec())
    &&& mat_f.nrows_spec() >= 1
    &&& mat_c.is_shape(mat_c.nrows_spec(), mat_f.nrows_spec())
    &&& mat_c.nrows_spec() >= 1
}

/// The observability index: the smallest `k` for which `[C; C F; ...; C F^(k-1)]`
/// has numeric rank `n` (tolerance `eps`), or `None` if no `k <= n` does. The stacked
/// matrix grows one block at a time, and the rank is only computed once it has at
/// least `n` rows.
pub fn kalman_observability_index<N: Scalar>(mat_f: &Matrix<N>, mat_c: &Matrix<N>, eps: N) -> (r: Option<usize>)
    requires
        valid_pair(mat_f, mat_c),
    ensures
        r == observability_index(mat_f@, mat_c@, mat_f.nrows_spec(), eps),
        r matches Some(k) ==> 1 <= k <= mat_f.nrows_spec(),
{
    let n = mat_f.nrows();
    let ghost nn = n as int;
    let mut sub_q = mat_c.duplicate();
    let mut q = Matrix::zeros(0, n);
    assert(q@ =~= obs_matrix(mat_f@, mat_c@, nn, 0));
    let mut i: usize = 0;
    while i < n
        invariant
            valid_pair(mat_f, mat_c),
            n == mat_f.nrows_spec(),
            nn == n,
            i <= n,
            sub_q.is_shape(mat_c.nrows_spec(), nn),
            sub_q@ == obs_block(mat_f@, mat_c@, nn, i as int),
            q.is_shape(q.nrows_spec(), nn),
            q@ == obs_matrix(mat_f@, mat_c@, nn, i as int),
            observability_index(mat_f@, mat_c@, nn, eps) == index_from(mat_f@, mat_c@, nn, eps, i + 1),
        decreases n - i,
    {
        q.append_rows(&sub_q);
        if q.nrows() >= n {
            if rank(&q, eps) == n {
                return Some(i + 1);
            }
        }
        sub_q = sub_q.mul(mat_f);
        i += 1;
    }
    None
}

/// `[l I - F; C]` has numeric rank `n`.
fn hautus_rank_full<N: Scalar>(mat_f: &Matrix<N>, mat_c: &Matrix<N>, l: N, eps: N) -> (r: bool)
    requires
        valid_pair(mat_f, mat_c),
    ensures
        r == hautus_passes(mat_f@, mat_c@, mat_f.nrows_spec(), l, eps),
{
    let n = mat_f.nrows();
    let mut m = Matrix::from_diagonal_element(n, l).sub(mat_f);
    m.append_rows(mat_c);
    rank(&m, eps) == n
}

/// Of the eigenvalues `eigenvalues` of `F`, those `l` for which `[l I - F; C]` has
/// numeric rank `n` (tolerance `eps`), in their order.
pub fn hautus_observable_eigenvalues<N: Scalar>(
    mat_f: &Matrix<N>,
    mat_c: &Matrix<N>,
    eps: N,
    eigenvalues: &Vec<N>,
) -> (r: Vec<N>)
    requires
        valid_pair(mat_f, mat_c),
    ensures
        r@ == passing(
            mat_f@,
            mat_c@,
            mat_f.nrows_spec(),
            eigenvalues@,
            eps,
            eigenvalues@.len() as int,
        ),
{
    let mut out: Vec<N> = Vec::new();
    let mut i: usize = 0;
    while i < eigenvalues.len()
        invariant
            valid_pair(mat_f, mat_c),
            i <= eigenvalues@.len(),
            out@ == passing(mat_f@, mat_c@, mat_f.nrows_spec(), eigenvalues@, eps, i as int),
        decreases eigenvalues@.len() - i,
    {
        let l = eigenvalues[i];
        if hautus_rank_full(mat_f, mat_c, l, eps) {
            out.push(l);
        }
        i += 1;
    }
    out
}

/// The Kalman rank test: `(F, C)` has an observability index.
pub fn is_observable<N: Scalar>(mat_f: &Matrix<N>, mat_c: &Matrix<N>, eps: N) -> (r: bool)
    requires
        valid_pair(mat_f, mat_c),
    ensures
        r == observability_index(mat_f@, mat_c@, mat_f.nrows_spec(), eps) is Some,
{
    kalman_observability_index(mat_f, mat_c, eps).is_some()
}

/// The Hautus criterion: every one of the `n` eigenvalues of `F` passes.
pub fn is_observable_hautus<N: Scalar>(mat_f: &Matrix<N>, mat_c: &Matrix<N>, eps: N, eigenvalues: &Vec<N>) -> (r:
    bool)
    requires
        valid_pair(mat_f, mat_c),
    ensures
        r == (passing(
            mat_f@,
            mat_c@,
            mat_f.nrows_spec(),
            eigenvalues@,
            eps,
            eigenvalues@.len() as int,
        ).len() == mat_f.nrows_spec()),
{
    hautus_observable_eigenvalues(mat_f, mat_c, eps, eigenvalues).len() == mat_f.nrows()
}

/// A weaker test than `is_observable_hautus`: at least one eigenvalue passes. It can
/// disagree with the Kalman rank test and with the full Hautus criterion.
pub fn is_observable2<N: Scalar>(mat_f: &Matrix<N>, mat_c: &Matrix<N>, eps: N, eigenvalues: &Vec<N>) -> (r: bool)
    requires
        valid_pair(mat_f, mat_c),
    ensures
        r == (passing(
            mat_f@,
            mat_c@,
            mat_f.nrows_spec(),
            eigenvalues@,
            eps,
            eigenvalues@.len() as int,
        ).len() > 0),
{
    hautus_observable_eigenvalues(mat_f, mat_c, eps, eigenvalues).len() > 0
}

} // verus!
