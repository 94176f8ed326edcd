use vstd::prelude::*;

use crate::scalar::Scalar;

verus! {

/// Sum of `a[t] * b[t]` over `t < k`, accumulated from the first index on.
pub open spec fn dot_upto<N: Scalar>(a: Seq<N>, b: Seq<N>, k: int) -> N
    decreases k,
{
    if k <= 0 {
        N::zero_spec()
    } else {
        dot_upto(a, b, k - 1).add_spec(a[k - 1].mul_spec(b[k - 1]))
    }
}

pub open spec fn dot_spec<N: Scalar>(a: Seq<N>, b: Seq<N>) -> N {
    dot_upto(a, b, a.len() as int)
}

pub open spec fn column<N: Scalar>(m: Seq<Seq<N>>, j: int) -> Seq<N> {
    Seq::new(m.len(), |k: int| m[k][j])
}

/// `m` has `r` rows of `c` entries each.
pub open spec fn has_shape<N: Scalar>(m: Seq<Seq<N>>, r: int, c: int) -> bool {
    &&& m.len() == r
    &&& forall|i: int| 0 <= i < r ==> #[trigger] m[i].len() == c
}

/// The product of `a` with `b`, where `b` has `p` columns.
pub open spec fn mat_mul_spec<N: Scalar>(a: Seq<Seq<N>>, b: Seq<Seq<N>>, p: int) -> Seq<Seq<N>> {
    Seq::new(a.len(), |i: int| Seq::new(p as nat, |j: int| dot_spec(a[i], column(b, j))))
}

pub open spec fn mat_vec_spec<N: Scalar>(a: Seq<Seq<N>>, x: Seq<N>) -> Seq<N> {
    Seq::new(a.len(), |i: int| dot_spec(a[i], x))
}

pub open spec fn vec_add_spec<N: Scalar>(x: Seq<N>, y: Seq<N>) -> Seq<N> {
    Seq::new(x.len(), |i: int| x[i].add_spec(y[i]))
}

pub open spec fn vec_sub_spec<N: Scalar>(x: Seq<N>, y: Seq<N>) -> Seq<N> {
    Seq::new(x.len(), |i: int| x[i].sub_spec(y[i]))
}

pub open spec fn vec_scale_spec<N: Scalar>(x: Seq<N>, s: N) -> Seq<N> {
    Seq::new(x.len(), |i: int| x[i].mul_spec(s))
}

pub open spec fn vec_div_spec<N: Scalar>(x: Seq<N>, s: N) -> Seq<N> {
    Seq::new(x.len(), |i: int| x[i].div_spec(s))
}

pub open spec fn mat_add_spec<N: Scalar>(a: Seq<Seq<N>>, b: Seq<Seq<N>>) -> Seq<Seq<N>> {
    Seq::new(a.len(), |i: int| vec_add_spec(a[i], b[i]))
}

pub open spec fn mat_sub_spec<N: Scalar>(a: Seq<Seq<N>>, b: Seq<Seq<N>>) -> Seq<Seq<N>> {
    Seq::new(a.len(), |i: int| vec_sub_spec(a[i], b[i]))
}

pub open spec fn mat_scale_spec<N: Scalar>(a: Seq<Seq<N>>, s: N) -> Seq<Seq<N>> {
    Seq::new(a.len(), |i: int| vec_scale_spec(a[i], s))
}

pub open spec fn mat_div_spec<N: Scalar>(a: Seq<Seq<N>>, s: N) -> Seq<Seq<N>> {
    Seq::new(a.len(), |i: int| vec_div_spec(a[i], s))
}

/// The transpose of `m`, where `m` has `c` columns.
pub open spec fn transpose_spec<N: Scalar>(m: Seq<Seq<N>>, c: int) -> Seq<Seq<N>> {
    Seq::new(c as nat, |j: int| column(m, j))
}

/// The outer product `k * c` of a column vector and a row vector.
pub open spec fn outer_spec<N: Scalar>(k: Seq<N>, c: Seq<N>) -> Seq<Seq<N>> {
    Seq::new(k.len(), |i: int| Seq::new(c.len(), |j: int| k[i].mul_spec(c[j])))
}

pub open spec fn filled_spec<N: Scalar>(r: int, c: int, v: N) -> Seq<Seq<N>> {
    Seq::new(r as nat, |i: int| Seq::new(c as nat, |j: int| v))
}

/// `v` on the diagonal of an `n` by `n` matrix, zero elsewhere.
pub open spec fn diagonal_spec<N: Scalar>(n: int, v: N) -> Seq<Seq<N>> {
    Seq::new(
        n as nat,
        |i: int| Seq::new(n as nat, |j: int| if i == j { v } else { N::zero_spec() }),
    )
}

pub open spec fn identity_spec<N: Scalar>(n: int) -> Seq<Seq<N>> {
    diagonal_spec(n, N::one_spec())
}

/// Every entry of `m` has an absolute value of at most `eps` (so every entry is finite).
pub open spec fn all_within<N: Scalar>(m: Seq<Seq<N>>, eps: N) -> bool {
    forall|i: int, j: int|
        0 <= i < m.len() && 0 <= j < m[i].len() ==> (#[trigger] m[i][j]).abs_spec().le_spec(eps)
}

/// Every entry of `x` is finite.
pub open spec fn all_finite<N: Scalar>(x: Seq<N>) -> bool {
    forall|i: int| 0 <= i < x.len() ==> (#[trigger] x[i]).is_finite_spec()
}

pub open spec fn zero_vec<N: Scalar>(n: int) -> Seq<N> {
    Seq::new(n as nat, |i: int| N::zero_spec())
}

/// A product of finite reals with a zero vector, on either side, is zero.
pub proof fn lemma_dot_with_zeros<N: Scalar>(a: Seq<N>, z: Seq<N>, k: int)
    requires
        0 <= k <= a.len(),
        a.len() == z.len(),
        all_finite(a),
        z == zero_vec::<N>(z.len() as int),
    ensures
        dot_upto(a, z, k) == N::zero_spec(),
        dot_upto(z, a, k) == N::zero_spec(),
    decreases k,
{
    if k > 0 {
        lemma_dot_with_zeros(a, z, k - 1);
        N::lemma_zero_is_finite();
        N::lemma_zero_laws(a[k - 1]);
        N::lemma_zero_laws(N::zero_spec());
    }
}

/// A dense matrix of reals, stored row by row.
#[derive(Clone, Debug)]
pub struct Matrix<N> {
    pub rows: Vec<Vec<N>>,
    /// Number of columns; kept so that a matrix without rows still has a width.
    pub cols: usize,
}

impl<N: Scalar> View for Matrix<N> {
    type V = Seq<Seq<N>>;

    open spec fn view(&self) -> Seq<Seq<N>> {
        self.rows@.map_values(|r: Vec<N>| r@)
    }
}

impl<N: Scalar> Matrix<N> {
    /// Every row holds `cols` entries.
    pub open spec fn wf(&self) -> bool {
        forall|i: int| 0 <= i < self.rows@.len() ==> (#[trigger] self.rows@[i])@.len() == self.cols
    }

    pub open spec fn nrows_spec(&self) -> int {
        self.rows@.len() as int
    }

    pub open spec fn ncols_spec(&self) -> int {
        self.cols as int
    }

    /// Well formed, with `r` rows and `c` columns.
    pub open spec fn is_shape(&self, r: int, c: int) -> bool {
        &&& self.wf()
        &&& self.rows@.len() == r
        &&& self.cols == c
    }

    pub proof fn lemma_view_shape(&self)
        requires
            self.wf(),
        ensures
            has_shape(self@, self.nrows_spec(), self.ncols_spec()),
    {
        assert forall|i: int| 0 <= i < self.nrows_spec() implies #[trigger] self@[i].len()
            == self.cols by {
            assert(self@[i] == self.rows@[i]@);
        }
    }

    /// Whether the matrix is well formed with `r` rows and `c` columns.
    pub fn check_shape(&self, r: usize, c: usize) -> (b: bool)
        ensures
            b == self.is_shape(r as int, c as int),
    {
        if self.rows.len() != r || self.cols != c {
            return false;
        }
        let mut i: usize = 0;
        while i < r
            invariant
                self.rows@.len() == r,
                self.cols == c,
                i <= r,
                forall|k: int| 0 <= k < i ==> (#[trigger] self.rows@[k])@.len() == c,
            decreases r - i,
        {
            if self.rows[i].len() != c {
                return false;
            }
            i += 1;
        }
        true
    }

    pub fn nrows(&self) -> (r: usize)
        ensures
            r == self.nrows_spec(),
    {
        self.rows.len()
    }

    pub fn ncols(&self) -> (r: usize)
        ensures
            r == self.cols,
    {
        self.cols
    }

    /// The entry in row `i` and column `j`.
    pub fn get(&self, i: usize, j: usize) -> (r: N)
        requires
            self.wf(),
            i < self.nrows_spec(),
            j < self.ncols_spec(),
        ensures
            r == self@[i as int][j as int],
    {
        self.rows[i][j]
    }

    /// An `r` by `c` matrix with every entry `v`.
    pub fn filled(r: usize, c: usize, v: N) -> (m: Matrix<N>)
        ensures
            m.is_shape(r as int, c as int),
            m@ == filled_spec(r as int, c as int, v),
    {
        let mut rows: Vec<Vec<N>> = Vec::new();
        let mut i: usize = 0;
        while i < r
            invariant
                i <= r,
                rows@.len() == i,
                forall|k: int| 0 <= k < i ==> (#[trigger] rows@[k])@ == Seq::new(c as nat, |j: int| v),
            decreases r - i,
        {
            let mut row: Vec<N> = Vec::new();
            let mut j: usize = 0;
            while j < c
                invariant
                    j <= c,
                    row@ == Seq::new(j as nat, |jj: int| v),
                decreases c - j,
            {
                row.push(v);
                j += 1;
                assert(row@ =~= Seq::new(j as nat, |jj: int| v));
            }
            rows.push(row);
            i += 1;
        }
        let m = Matrix { rows, cols: c };
        assert(m@ =~= filled_spec(r as int, c as int, v));
        m
    }

    pub fn zeros(r: usize, c: usize) -> (m: Matrix<N>)
        ensures
            m.is_shape(r as int, c as int),
            m@ == filled_spec(r as int, c as int, N::zero_spec()),
    {
        Matrix::filled(r, c, N::zero())
    }

    /// The `n` by `n` matrix with `v` on the diagonal and zero elsewhere.
    pub fn from_diagonal_element(n: usize, v: N) -> (m: Matrix<N>)
        ensures
            m.is_shape(n as int, n as int),
            m@ == diagonal_spec(n as int, v),
    {
        let mut rows: Vec<Vec<N>> = Vec::new();
        let mut i: usize = 0;
        while i < n
            invariant
                i <= n,
                rows@.len() == i,
                forall|k: int| 0 <= k < i ==> (#[trigger] rows@[k])@ == diagonal_spec(n as int, v)[k],
            decreases n - i,
        {
            let mut row: Vec<N> = Vec::new();
            let mut j: usize = 0;
            while j < n
                invariant
                    j <= n,
                    i < n,
                    row@.len() == j,
                    forall|jj: int| 0 <= jj < j ==> #[trigger] row@[jj] == (if i == jj {
                        v
                    } else {
                        N::zero_spec()
                    }),
                decreases n - j,
            {
                if i == j {
                    row.push(v);
                } else {
                    row.push(N::zero());
                }
                j += 1;
            }
            assert(row@ =~= diagonal_spec(n as int, v)[i as int]);
            rows.push(row);
            i += 1;
        }
        let m = Matrix { rows, cols: n };
        assert(m@ =~= diagonal_spec(n as int, v));
        m
    }

    pub fn identity(n: usize) -> (m: Matrix<N>)
        ensures
            m.is_shape(n as int, n as int),
            m@ == identity_spec::<N>(n as int),
    {
        Matrix::from_diagonal_element(n, N::one())
    }

    /// The matrix with the given rows; `None` when they are not all of the same length.
    /// A matrix without rows has no columns.
    pub fn from_rows(rows: Vec<Vec<N>>) -> (r: Option<Matrix<N>>)
        ensures
            r is Some <==> forall|i: int|
                0 <= i < rows@.len() ==> (#[trigger] rows@[i])@.len() == rows@[0]@.len(),
            r matches Some(m) ==> m.wf() && m.rows == rows && (rows@.len() > 0 ==> m.cols
                == rows@[0]@.len()),
    {
        if rows.len() == 0 {
            return Some(Matrix { rows, cols: 0 });
        }
        let c = rows[0].len();
        let mut i: usize = 0;
        while i < rows.len()
            invariant
                i <= rows@.len(),
                rows@.len() > 0,
                c == rows@[0]@.len(),
                forall|k: int| 0 <= k < i ==> (#[trigger] rows@[k])@.len() == c,
            decreases rows@.len() - i,
        {
            if rows[i].len() != c {
                return None;
            }
            i += 1;
        }
        Some(Matrix { rows, cols: c })
    }

    /// A copy with the same entries.
    pub fn duplicate(&self) -> (r: Matrix<N>)
        requires
            self.wf(),
        ensures
            r.is_shape(self.nrows_spec(), self.ncols_spec()),
            r@ == self@,
    {
        let n = self.rows.len();
        let mut rows: Vec<Vec<N>> = Vec::new();
        let mut i: usize = 0;
        while i < n
            invariant
                self.wf(),
                n == self.rows@.len(),
                i <= n,
                rows@.len() == i,
                forall|k: int| 0 <= k < i ==> (#[trigger] rows@[k])@ == self@[k],
                forall|k: int| 0 <= k < i ==> (#[trigger] rows@[k])@.len() == self.cols,
            decreases n - i,
        {
            assert(self.rows@[i as int]@ == self@[i as int]);
            rows.push(copy_vec(&self.rows[i]));
            i += 1;
        }
        let r = Matrix { rows, cols: self.cols };
        assert(r@ =~= self@);
        r
    }

    /// Replaces row `i` by `row`.
    pub fn set_row(&mut self, i: usize, row: Vec<N>)
        requires
            old(self).wf(),
            i < old(self).nrows_spec(),
            row@.len() == old(self).cols,
        ensures
            final(self).is_shape(old(self).nrows_spec(), old(self).ncols_spec()),
            final(self)@ == old(self)@.update(i as int, row@),
    {
        self.rows.set(i, row);
        assert(self@ =~= old(self)@.update(i as int, row@));
    }

    /// Appends the rows of `o` below those of `self`.
    pub fn append_rows(&mut self, o: &Matrix<N>)
        requires
            old(self).wf(),
            o.is_shape(o.nrows_spec(), old(self).ncols_spec()),
        ensures
            final(self).is_shape(old(self).nrows_spec() + o.nrows_spec(), old(self).ncols_spec()),
            final(self)@ == old(self)@ + o@,
    {
        let n = o.rows.len();
        let ghost start = self@;
        let mut i: usize = 0;
        while i < n
            invariant
                o.is_shape(n as int, self.cols as int),
                self.wf(),
                self.cols == old(self).cols,
                i <= n,
                start == old(self)@,
                self@ == start + o@.subrange(0, i as int),
            decreases n - i,
        {
            assert(o.rows@[i as int]@ == o@[i as int]);
            let ghost before = self@;
            let row = copy_vec(&o.rows[i]);
            assert(row@ == o@[i as int]);
            self.rows.push(row);
            assert(self@ =~= before.push(o@[i as int]));
            assert(o@.subrange(0, i as int + 1) =~= o@.subrange(0, i as int).push(o@[i as int]));
            i += 1;
            assert(self@ =~= start + o@.subrange(0, i as int));
        }
        assert(o@.subrange(0, n as int) =~= o@);
    }

    /// Row `i`, copied.
    pub fn row(&self, i: usize) -> (r: Vec<N>)
        requires
            i < self.nrows_spec(),
        ensures
            r@ == self@[i as int],
    {
        copy_vec(&self.rows[i])
    }

    pub fn mul(&self, o: &Matrix<N>) -> (r: Matrix<N>)
        requires
            self.wf(),
            o.wf(),
            self.cols == o.nrows_spec(),
        ensures
            r.is_shape(self.nrows_spec(), o.ncols_spec()),
            r@ == mat_mul_spec(self@, o@, o.ncols_spec()),
    {
        let n = self.rows.len();
        let p = o.cols;
        let inner = self.cols;
        let mut rows: Vec<Vec<N>> = Vec::new();
        let mut i: usize = 0;
        while i < n
            invariant
                self.wf(),
                o.wf(),
                inner == self.cols,
                inner == o.rows@.len(),
                n == self.rows@.len(),
                p == o.cols,
                i <= n,
                rows@.len() == i,
                forall|k: int|
                    0 <= k < i ==> (#[trigger] rows@[k])@ == mat_mul_spec(self@, o@, p as int)[k],
            decreases n - i,
        {
            let mut row: Vec<N> = Vec::new();
            let mut j: usize = 0;
            while j < p
                invariant
                    self.wf(),
                    o.wf(),
                    inner == self.cols,
                    inner == o.rows@.len(),
                    n == self.rows@.len(),
                    p == o.cols,
                    i < n,
                    j <= p,
                    row@.len() == j,
                    forall|jj: int|
                        0 <= jj < j ==> #[trigger] row@[jj] == dot_spec(
                            self@[i as int],
                            column(o@, jj),
                        ),
                decreases p - j,
            {
                let ghost a = self@[i as int];
                let ghost b = column(o@, j as int);
                assert(a.len() == inner) by {
                    assert(self@[i as int] == self.rows@[i as int]@);
                }
                let mut acc = N::zero();
                let mut k: usize = 0;
                while k < inner
                    invariant
                        self.wf(),
                        o.wf(),
                        inner == self.cols,
                        inner == o.rows@.len(),
                        n == self.rows@.len(),
                        p == o.cols,
                        i < n,
                        j < p,
                        k <= inner,
                        a == self@[i as int],
                        b == column(o@, j as int),
                        a.len() == inner,
                        b.len() == inner,
                        acc == dot_upto(a, b, k as int),
                    decreases inner - k,
                {
                    assert(self.rows@[i as int]@ == a);
                    assert(o.rows@[k as int]@ == o@[k as int]);
                    assert(o.rows@[k as int]@.len() == p);
                    acc = acc.add(self.rows[i][k].mul(o.rows[k][j]));
                    k += 1;
                }
                row.push(acc);
                j += 1;
            }
            assert(row@ =~= mat_mul_spec(self@, o@, p as int)[i as int]);
            rows.push(row);
            i += 1;
        }
        let r = Matrix { rows, cols: p };
        assert(r@ =~= mat_mul_spec(self@, o@, p as int));
        r
    }

    pub fn mul_vec(&self, x: &Vec<N>) -> (r: Vec<N>)
        requires
            self.wf(),
            self.cols == x@.len(),
        ensures
            r@ == mat_vec_spec(self@, x@),
    {
        let n = self.rows.len();
        let mut out: Vec<N> = Vec::new();
        let mut i: usize = 0;
        while i < n
            invariant
                self.wf(),
                n == self.rows@.len(),
                self.cols == x@.len(),
                i <= n,
                out@.len() == i,
                forall|k: int| 0 <= k < i ==> #[trigger] out@[k] == dot_spec(self@[k], x@),
            decreases n - i,
        {
            assert(self.rows@[i as int]@ == self@[i as int]);
            out.push(dot(&self.rows[i], x));
            i += 1;
        }
        assert(out@ =~= mat_vec_spec(self@, x@));
        out
    }

    pub fn transpose(&self) -> (r: Matrix<N>)
        requires
            self.wf(),
        ensures
            r.is_shape(self.ncols_spec(), self.nrows_spec()),
            r@ == transpose_spec(self@, self.ncols_spec()),
    {
        let n = self.rows.len();
        let c = self.cols;
        let mut rows: Vec<Vec<N>> = Vec::new();
        let mut j: usize = 0;
        while j < c
            invariant
                self.wf(),
                n == self.rows@.len(),
                c == self.cols,
                j <= c,
                rows@.len() == j,
                forall|k: int| 0 <= k < j ==> (#[trigger] rows@[k])@ == column(self@, k),
            decreases c - j,
        {
            let mut row: Vec<N> = Vec::new();
            let mut i: usize = 0;
            while i < n
                invariant
                    self.wf(),
                    n == self.rows@.len(),
                    c == self.cols,
                    j < c,
                    i <= n,
                    row@.len() == i,
                    forall|k: int| 0 <= k < i ==> #[trigger] row@[k] == self@[k][j as int],
                decreases n - i,
            {
                assert(self.rows@[i as int]@ == self@[i as int]);
                row.push(self.rows[i][j]);
                i += 1;
            }
            assert(row@ =~= column(self@, j as int));
            rows.push(row);
            j += 1;
        }
        let r = Matrix { rows, cols: n };
        assert(r@ =~= transpose_spec(self@, c as int));
        r
    }

    pub fn add(&self, o: &Matrix<N>) -> (r: Matrix<N>)
        requires
            self.wf(),
            o.is_shape(self.nrows_spec(), self.ncols_spec()),
        ensures
            r.is_shape(self.nrows_spec(), self.ncols_spec()),
            r@ == mat_add_spec(self@, o@),
    {
        let n = self.rows.len();
        let mut rows: Vec<Vec<N>> = Vec::new();
        let mut i: usize = 0;
        while i < n
            invariant
                self.wf(),
                o.is_shape(self.nrows_spec(), self.ncols_spec()),
                n == self.rows@.len(),
                i <= n,
                rows@.len() == i,
                forall|k: int| 0 <= k < i ==> (#[trigger] rows@[k])@ == vec_add_spec(self@[k], o@[k]),
                forall|k: int| 0 <= k < i ==> (#[trigger] rows@[k])@.len() == self.cols,
            decreases n - i,
        {
            assert(self.rows@[i as int]@ == self@[i as int]);
            assert(o.rows@[i as int]@ == o@[i as int]);
            rows.push(vec_add(&self.rows[i], &o.rows[i]));
            i += 1;
        }
        let r = Matrix { rows, cols: self.cols };
        assert(r@ =~= mat_add_spec(self@, o@));
        r
    }

    pub fn sub(&self, o: &Matrix<N>) -> (r: Matrix<N>)
        requires
            self.wf(),
            o.is_shape(self.nrows_spec(), self.ncols_spec()),
        ensures
            r.is_shape(self.nrows_spec(), self.ncols_spec()),
            r@ == mat_sub_spec(self@, o@),
    {
        let n = self.rows.len();
        let mut rows: Vec<Vec<N>> = Vec::new();
        let mut i: usize = 0;
        while i < n
            invariant
                self.wf(),
                o.is_shape(self.nrows_spec(), self.ncols_spec()),
                n == self.rows@.len(),
                i <= n,
                rows@.len() == i,
                forall|k: int| 0 <= k < i ==> (#[trigger] rows@[k])@ == vec_sub_spec(self@[k], o@[k]),
                forall|k: int| 0 <= k < i ==> (#[trigger] rows@[k])@.len() == self.cols,
            decreases n - i,
        {
            assert(self.rows@[i as int]@ == self@[i as int]);
            assert(o.rows@[i as int]@ == o@[i as int]);
            rows.push(vec_sub(&self.rows[i], &o.rows[i]));
            i += 1;
        }
        let r = Matrix { rows, cols: self.cols };
        assert(r@ =~= mat_sub_spec(self@, o@));
        r
    }

    /// Every entry multiplied by `s`.
    pub fn scale(&self, s: N) -> (r: Matrix<N>)
        requires
            self.wf(),
        ensures
            r.is_shape(self.nrows_spec(), self.ncols_spec()),
            r@ == mat_scale_spec(self@, s),
    {
        let n = self.rows.len();
        let mut rows: Vec<Vec<N>> = Vec::new();
        let mut i: usize = 0;
        while i < n
            invariant
                self.wf(),
                n == self.rows@.len(),
                i <= n,
                rows@.len() == i,
                forall|k: int| 0 <= k < i ==> (#[trigger] rows@[k])@ == vec_scale_spec(self@[k], s),
                forall|k: int| 0 <= k < i ==> (#[trigger] rows@[k])@.len() == self.cols,
            decreases n - i,
        {
            assert(self.rows@[i as int]@ == self@[i as int]);
            rows.push(vec_scale(&self.rows[i], s));
            i += 1;
        }
        let r = Matrix { rows, cols: self.cols };
        assert(r@ =~= mat_scale_spec(self@, s));
        r
    }

    /// Every entry divided by `s`.
    pub fn div_scalar(&self, s: N) -> (r: Matrix<N>)
        requires
            self.wf(),
        ensures
            r.is_shape(self.nrows_spec(), self.ncols_spec()),
            r@ == mat_div_spec(self@, s),
    {
        let n = self.rows.len();
        let mut rows: Vec<Vec<N>> = Vec::new();
        let mut i: usize = 0;
        while i < n
            invariant
                self.wf(),
                n == self.rows@.len(),
                i <= n,
                rows@.len() == i,
                forall|k: int| 0 <= k < i ==> (#[trigger] rows@[k])@ == vec_div_spec(self@[k], s),
                forall|k: int| 0 <= k < i ==> (#[trigger] rows@[k])@.len() == self.cols,
            decreases n - i,
        {
            assert(self.rows@[i as int]@ == self@[i as int]);
            rows.push(vec_div(&self.rows[i], s));
            i += 1;
        }
        let r = Matrix { rows, cols: self.cols };
        assert(r@ =~= mat_div_spec(self@, s));
        r
    }

    /// Whether every entry has an absolute value of at most `eps`.
    pub fn all_within(&self, eps: N) -> (r: bool)
        requires
            self.wf(),
        ensures
            r == all_within(self@, eps),
    {
        let n = self.rows.len();
        let mut i: usize = 0;
        while i < n
            invariant
                self.wf(),
                n == self.rows@.len(),
                i <= n,
                forall|a: int, b: int|
                    0 <= a < i && 0 <= b < self@[a].len() ==> (#[trigger] self@[a][b]).abs_spec().le_spec(
                        eps,
                    ),
            decreases n - i,
        {
            let mut j: usize = 0;
            assert(self.rows@[i as int]@ == self@[i as int]);
            while j < self.cols
                invariant
                    self.wf(),
                    n == self.rows@.len(),
                    i < n,
                    j <= self.cols,
                    self@[i as int].len() == self.cols,
                    forall|a: int, b: int|
                        0 <= a < i && 0 <= b < self@[a].len() ==> (#[trigger] self@[a][b]).abs_spec().le_spec(
                            eps,
                        ),
                    forall|b: int| 0 <= b < j ==> (#[trigger] self@[i as int][b]).abs_spec().le_spec(eps),
                decreases self.cols - j,
            {
                assert(self.rows@[i as int]@ == self@[i as int]);
                if !self.rows[i][j].abs().le(eps) {
                    return false;
                }
                j += 1;
            }
            i += 1;
        }
        true
    }
}

/// A copy of `v`, entry by entry.
pub fn copy_vec<N: Scalar>(v: &Vec<N>) -> (r: Vec<N>)
    ensures
        r@ == v@,
{
    let mut out: Vec<N> = Vec::new();
    let mut i: usize = 0;
    while i < v.len()
        invariant
            i <= v@.len(),
            out@ == v@.subrange(0, i as int),
        decreases v@.len() - i,
    {
        out.push(v[i]);
        i += 1;
        assert(out@ =~= v@.subrange(0, i as int));
    }
    assert(v@.subrange(0, v@.len() as int) =~= v@);
    out
}

pub fn dot<N: Scalar>(a: &Vec<N>, b: &Vec<N>) -> (r: N)
    requires
        a@.len() == b@.len(),
    ensures
        r == dot_spec(a@, b@),
{
    let mut acc = N::zero();
    let mut k: usize = 0;
    while k < a.len()
        invariant
            k <= a@.len(),
            a@.len() == b@.len(),
            acc == dot_upto(a@, b@, k as int),
        decreases a@.len() - k,
    {
        acc = acc.add(a[k].mul(b[k]));
        k += 1;
    }
    acc
}

pub fn vec_add<N: Scalar>(x: &Vec<N>, y: &Vec<N>) -> (r: Vec<N>)
    requires
        x@.len() == y@.len(),
    ensures
        r@ == vec_add_spec(x@, y@),
        r@.len() == x@.len(),
{
    let mut out: Vec<N> = Vec::new();
    let mut i: usize = 0;
    while i < x.len()
        invariant
            x@.len() == y@.len(),
            i <= x@.len(),
            out@.len() == i,
            forall|k: int| 0 <= k < i ==> #[trigger] out@[k] == x@[k].add_spec(y@[k]),
        decreases x@.len() - i,
    {
        out.push(x[i].add(y[i]));
        i += 1;
    }
    assert(out@ =~= vec_add_spec(x@, y@));
    out
}

pub fn vec_sub<N: Scalar>(x: &Vec<N>, y: &Vec<N>) -> (r: Vec<N>)
    requires
        x@.len() == y@.len(),
    ensures
        r@ == vec_sub_spec(x@, y@),
        r@.len() == x@.len(),
{
    let mut out: Vec<N> = Vec::new();
    let mut i: usize = 0;
    while i < x.len()
        invariant
            x@.len() == y@.len(),
            i <= x@.len(),
            out@.len() == i,
            forall|k: int| 0 <= k < i ==> #[trigger] out@[k] == x@[k].sub_spec(y@[k]),
        decreases x@.len() - i,
    {
        out.push(x[i].sub(y[i]));
        i += 1;
    }
    assert(out@ =~= vec_sub_spec(x@, y@));
    out
}

pub fn vec_scale<N: Scalar>(x: &Vec<N>, s: N) -> (r: Vec<N>)
    ensures
        r@ == vec_scale_spec(x@, s),
        r@.len() == x@.len(),
{
    let mut out: Vec<N> = Vec::new();
    let mut i: usize = 0;
    while i < x.len()
        invariant
            i <= x@.len(),
            out@.len() == i,
            forall|k: int| 0 <= k < i ==> #[trigger] out@[k] == x@[k].mul_spec(s),
        decreases x@.len() - i,
    {
        out.push(x[i].mul(s));
        i += 1;
    }
    assert(out@ =~= vec_scale_spec(x@, s));
    out
}

pub fn vec_div<N: Scalar>(x: &Vec<N>, s: N) -> (r: Vec<N>)
    ensures
        r@ == vec_div_spec(x@, s),
        r@.len() == x@.len(),
{
    let mut out: Vec<N> = Vec::new();
    let mut i: usize = 0;
    while i < x.len()
        invariant
            i <= x@.len(),
            out@.len() == i,
            forall|k: int| 0 <= k < i ==> #[trigger] out@[k] == x@[k].div_spec(s),
        decreases x@.len() - i,
    {
        out.push(x[i].div(s));
        i += 1;
    }
    assert(out@ =~= vec_div_spec(x@, s));
    out
}

/// The outer product `k * c`: entry `(i, j)` is `k[i] * c[j]`.
pub fn outer<N: Scalar>(k: &Vec<N>, c: &Vec<N>) -> (r: Matrix<N>)
    ensures
        r.is_shape(k@.len() as int, c@.len() as int),
        r@ == outer_spec(k@, c@),
{
    let mut rows: Vec<Vec<N>> = Vec::new();
    let mut i: usize = 0;
    while i < k.len()
        invariant
            i <= k@.len(),
            rows@.len() == i,
            forall|a: int| 0 <= a < i ==> (#[trigger] rows@[a])@ == outer_spec(k@, c@)[a],
        decreases k@.len() - i,
    {
        let mut row: Vec<N> = Vec::new();
        let mut j: usize = 0;
        while j < c.len()
            invariant
                i < k@.len(),
                j <= c@.len(),
                row@.len() == j,
                forall|b: int| 0 <= b < j ==> #[trigger] row@[b] == k@[i as int].mul_spec(c@[b]),
            decreases c@.len() - j,
        {
            row.push(k[i].mul(c[j]));
            j += 1;
        }
        assert(row@ =~= outer_spec(k@, c@)[i as int]);
        rows.push(row);
        i += 1;
    }
    let r = Matrix { rows, cols: c.len() };
    assert(r@ =~= outer_spec(k@, c@));
    r
}

} // verus!
