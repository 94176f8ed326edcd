//! Row reduction: Gauss-Jordan inversion and the numeric rank.
use vstd::prelude::*;

use crate::matrix::{column, identity_spec, vec_div, vec_div_spec, vec_scale, vec_scale_spec, vec_sub, vec_sub_spec, Matrix};
use crate::scalar::Scalar;

verus! {

/// `x` is a better pivot than `y`: unless `|x| <= |y|` (a non-finite `x` is always taken).
pub open spec fn better_pivot<N: Scalar>(x: N, y: N) -> bool {
    !x.abs_spec().le_spec(y.abs_spec())
}

/// Among rows `from..k` of `m`, the first with the largest entry in column `col`.
pub open spec fn best_row<N: Scalar>(m: Seq<Seq<N>>, col: int, from: int, k: int) -> int
    decreases k - from,
{
    if k <= from + 1 {
        from
    } else {
        let b = best_row(m, col, from, k - 1);
        if better_pivot(m[k - 1][col], m[b][col]) {
            k - 1
        } else {
            b
        }
    }
}

pub open spec fn swap_rows<N: Scalar>(m: Seq<Seq<N>>, i: int, j: int) -> Seq<Seq<N>> {
    m.update(i, m[j]).update(j, m[i])
}

/// Row `row` divided by `piv`.
pub open spec fn normalized<N: Scalar>(m: Seq<Seq<N>>, row: int, piv: N) -> Seq<Seq<N>> {
    m.update(row, vec_div_spec(m[row], piv))
}

/// Every row but `row` loses `factors[r]` times row `row`.
pub open spec fn eliminated<N: Scalar>(m: Seq<Seq<N>>, row: int, factors: Seq<N>) -> Seq<Seq<N>> {
    Seq::new(
        m.len(),
        |r: int|
            if r == row {
                m[r]
            } else {
                vec_sub_spec(m[r], vec_scale_spec(m[row], factors[r]))
            },
    )
}

/// A pivot that can be divided by: finite and not zero.
pub open spec fn usable_pivot<N: Scalar>(x: N) -> bool {
    x.is_finite_spec() && !x.is_zero_spec()
}

/// Gauss-Jordan with partial pivoting from column `col` on: `a` is reduced to the
/// identity while `inv` undergoes the same row operations. `None` when a column has
/// no usable pivot.
pub open spec fn gauss_jordan<N: Scalar>(a: Seq<Seq<N>>, inv: Seq<Seq<N>>, n: int, col: int) -> Option<
    Seq<Seq<N>>,
>
    decreases n - col,
{
    if col >= n {
        Some(inv)
    } else {
        let p = best_row(a, col, col, n);
        let sa = swap_rows(a, col, p);
        let si = swap_rows(inv, col, p);
        let piv = sa[col][col];
        if !usable_pivot(piv) {
            None
        } else {
            let na = normalized(sa, col, piv);
            let ni = normalized(si, col, piv);
            let factors = column(na, col);
            gauss_jordan(eliminated(na, col, factors), eliminated(ni, col, factors), n, col + 1)
        }
    }
}

/// The inverse of the square matrix `m` by Gauss-Jordan elimination, if every column
/// has a usable pivot.
pub open spec fn inverse_spec<N: Scalar>(m: Seq<Seq<N>>) -> Option<Seq<Seq<N>>> {
    gauss_jordan(m, identity_spec(m.len() as int), m.len() as int, 0)
}

/// Row reduction of the `c`-column matrix `a` from `(row, col)` on; each column whose
/// best pivot exceeds `eps` in absolute value adds one to the count.
pub open spec fn rank_from<N: Scalar>(a: Seq<Seq<N>>, c: int, eps: N, row: int, col: int) -> int
    decreases c - col,
{
    if row >= a.len() || col >= c {
        0
    } else {
        let p = best_row(a, col, row, a.len() as int);
        if a[p][col].abs_spec().le_spec(eps) {
            rank_from(a, c, eps, row, col + 1)
        } else {
            let s = swap_rows(a, row, p);
            let na = normalized(s, row, s[row][col]);
            1 + rank_from(eliminated(na, row, column(na, col)), c, eps, row + 1, col + 1)
        }
    }
}

/// The numeric rank of `a` (with `c` columns) for tolerance `eps`.
pub open spec fn numeric_rank<N: Scalar>(a: Seq<Seq<N>>, c: int, eps: N) -> int {
    rank_from(a, c, eps, 0, 0)
}

/// The row among `from..` that `best_row` picks in column `col`.
fn find_pivot<N: Scalar>(m: &Matrix<N>, col: usize, from: usize) -> (r: usize)
    requires
        m.wf(),
        col < m.cols,
        from < m.nrows_spec(),
    ensures
        r == best_row(m@, col as int, from as int, m.nrows_spec()),
        from <= r < m.nrows_spec(),
{
    let n = m.nrows();
    let mut best = from;
    let mut k: usize = from + 1;
    while k < n
        invariant
            m.wf(),
            col < m.cols,
            n == m.nrows_spec(),
            from < k <= n,
            from <= best < k,
            best == best_row(m@, col as int, from as int, k as int),
        decreases n - k,
    {
        if !m.get(k, col).abs().le(m.get(best, col).abs()) {
            best = k;
        }
        k += 1;
    }
    best
}

fn swap_rows_exec<N: Scalar>(m: &mut Matrix<N>, i: usize, j: usize)
    requires
        old(m).wf(),
        i < old(m).nrows_spec(),
        j < old(m).nrows_spec(),
    ensures
        final(m).is_shape(old(m).nrows_spec(), old(m).ncols_spec()),
        final(m)@ == swap_rows(old(m)@, i as int, j as int),
{
    let ri = m.row(i);
    let rj = m.row(j);
    proof {
        old(m).lemma_view_shape();
    }
    m.set_row(i, rj);
    m.set_row(j, ri);
}

fn normalize_row<N: Scalar>(m: &mut Matrix<N>, row: usize, piv: N)
    requires
        old(m).wf(),
        row < old(m).nrows_spec(),
    ensures
        final(m).is_shape(old(m).nrows_spec(), old(m).ncols_spec()),
        final(m)@ == normalized(old(m)@, row as int, piv),
{
    let r = m.row(row);
    proof {
        old(m).lemma_view_shape();
    }
    let d = vec_div(&r, piv);
    m.set_row(row, d);
}

fn eliminate_rows<N: Scalar>(m: &mut Matrix<N>, row: usize, factors: &Vec<N>)
    requires
        old(m).wf(),
        row < old(m).nrows_spec(),
        factors@.len() == old(m).nrows_spec(),
    ensures
        final(m).is_shape(old(m).nrows_spec(), old(m).ncols_spec()),
        final(m)@ == eliminated(old(m)@, row as int, factors@),
{
    let n = m.nrows();
    let ghost orig = m@;
    proof {
        m.lemma_view_shape();
    }
    let pivot_row = m.row(row);
    let mut r: usize = 0;
    while r < n
        invariant
            m.is_shape(n as int, old(m).ncols_spec()),
            orig == old(m)@,
            n == orig.len(),
            row < n,
            factors@.len() == n,
            pivot_row@ == orig[row as int],
            pivot_row@.len() == old(m).cols,
            r <= n,
            m@.len() == n,
            forall|k: int| 0 <= k < n ==> (#[trigger] orig[k]).len() == old(m).cols,
            forall|k: int| 0 <= k < r ==> #[trigger] m@[k] == eliminated(orig, row as int, factors@)[k],
            forall|k: int| r <= k < n ==> #[trigger] m@[k] == orig[k],
        decreases n - r,
    {
        if r != row {
            let cur = m.row(r);
            let scaled = vec_scale(&pivot_row, factors[r]);
            let updated = vec_sub(&cur, &scaled);
            m.set_row(r, updated);
        }
        r += 1;
    }
    assert(m@ =~= eliminated(orig, row as int, factors@));
}

/// The entries of column `col`.
fn column_exec<N: Scalar>(m: &Matrix<N>, col: usize) -> (r: Vec<N>)
    requires
        m.wf(),
        col < m.cols,
    ensures
        r@ == column(m@, col as int),
{
    let n = m.nrows();
    let mut out: Vec<N> = Vec::new();
    let mut i: usize = 0;
    while i < n
        invariant
            m.wf(),
            col < m.cols,
            n == m.nrows_spec(),
            i <= n,
            out@.len() == i,
            forall|k: int| 0 <= k < i ==> #[trigger] out@[k] == m@[k][col as int],
        decreases n - i,
    {
        out.push(m.get(i, col));
        i += 1;
    }
    assert(out@ =~= column(m@, col as int));
    out
}

/// The inverse of the square matrix `m` by Gauss-Jordan elimination with partial
/// pivoting; `None` when some column has no finite, non-zero pivot.
pub fn try_inverse<N: Scalar>(m: &Matrix<N>) -> (r: Option<Matrix<N>>)
    requires
        m.is_shape(m.nrows_spec(), m.nrows_spec()),
    ensures
        match inverse_spec(m@) {
            Some(inv) => r matches Some(x) && x@ == inv && x.is_shape(m.nrows_spec(), m.nrows_spec()),
            None => r is None,
        },
{
    let n = m.nrows();
    let mut a = m.duplicate();
    let mut inv = Matrix::identity(n);
    let mut col: usize = 0;
    while col < n
        invariant
            a.is_shape(n as int, n as int),
            inv.is_shape(n as int, n as int),
            m@.len() == n,
            col <= n,
            inverse_spec(m@) == gauss_jordan(a@, inv@, n as int, col as int),
        decreases n - col,
    {
        let p = find_pivot(&a, col, col);
        swap_rows_exec(&mut a, col, p);
        swap_rows_exec(&mut inv, col, p);
        let piv = a.get(col, col);
        if !(piv.is_finite() && !piv.is_zero()) {
            return None;
        }
        normalize_row(&mut a, col, piv);
        normalize_row(&mut inv, col, piv);
        let factors = column_exec(&a, col);
        eliminate_rows(&mut a, col, &factors);
        eliminate_rows(&mut inv, col, &factors);
        col += 1;
    }
    Some(inv)
}

/// The numeric rank of `m`: row reduction with partial pivoting, in which a column
/// whose largest remaining entry is at most `eps` in absolute value counts as zero.
pub fn rank<N: Scalar>(m: &Matrix<N>, eps: N) -> (r: usize)
    requires
        m.wf(),
    ensures
        r == numeric_rank(m@, m.ncols_spec(), eps),
        r <= m.nrows_spec(),
        r <= m.ncols_spec(),
{
    let nr = m.nrows();
    let c = m.ncols();
    let mut a = m.duplicate();
    let mut row: usize = 0;
    let mut col: usize = 0;
    let mut count: usize = 0;
    while row < nr && col < c
        invariant
            a.is_shape(nr as int, c as int),
            c == m.cols,
            row <= nr,
            col <= c,
            count == row,
            row <= col,
            numeric_rank(m@, c as int, eps) == count + rank_from(a@, c as int, eps, row as int, col as int),
        decreases c - col,
    {
        let p = find_pivot(&a, col, row);
        let pv = a.get(p, col);
        if pv.abs().le(eps) {
            col += 1;
        } else {
            swap_rows_exec(&mut a, row, p);
            let piv = a.get(row, col);
            normalize_row(&mut a, row, piv);
            let factors = column_exec(&a, col);
            eliminate_rows(&mut a, row, &factors);
            count += 1;
            row += 1;
            col += 1;
        }
    }
    count
}

} // verus!
