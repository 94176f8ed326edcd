use vstd::prelude::*;

verus! {

/// Raw units in one: a `Real` carries nine decimal digits after the point.
pub const SCALE: i64 = 1_000_000_000;

/// Quotient of `p` by `d`, rounded toward zero (as Rust's integer `/` does).
pub open spec fn trunc_div(p: int, d: int) -> int {
    let q = abs_int(p) / abs_int(d);
    if (p >= 0) == (d > 0) {
        q
    } else {
        -q
    }
}

pub open spec fn abs_int(v: int) -> int {
    if v < 0 {
        -v
    } else {
        v
    }
}

pub open spec fn fits_i64(v: int) -> bool {
    i64::MIN <= v <= i64::MAX
}

/// The finite value with raw units `v`, or the non-finite value when `v` leaves the range.
pub open spec fn real_of_raw(v: int) -> Real {
    if fits_i64(v) {
        Real { raw: v as i64, finite: true }
    } else {
        non_finite()
    }
}

pub open spec fn non_finite() -> Real {
    Real { raw: 0, finite: false }
}

/// The real-number capability the library computes with: identities, arithmetic
/// with division, absolute value and ordering. An operation may give a non-finite
/// value (a division by zero does); the laws below say how such values behave.
pub trait Scalar: Copy + Sized {
    spec fn zero_spec() -> Self;

    spec fn one_spec() -> Self;

    /// The integer `n` as a scalar.
    spec fn from_int_spec(n: int) -> Self;

    spec fn add_spec(self, o: Self) -> Self;

    spec fn sub_spec(self, o: Self) -> Self;

    spec fn mul_spec(self, o: Self) -> Self;

    spec fn div_spec(self, o: Self) -> Self;

    spec fn abs_spec(self) -> Self;

    spec fn le_spec(self, o: Self) -> bool;

    spec fn is_finite_spec(self) -> bool;

    spec fn is_zero_spec(self) -> bool;

    fn zero() -> (r: Self)
        ensures
            r == Self::zero_spec(),
    ;

    fn one() -> (r: Self)
        ensures
            r == Self::one_spec(),
    ;

    fn from_int(n: i64) -> (r: Self)
        ensures
            r == Self::from_int_spec(n as int),
    ;

    fn add(self, o: Self) -> (r: Self)
        ensures
            r == self.add_spec(o),
    ;

    fn sub(self, o: Self) -> (r: Self)
        ensures
            r == self.sub_spec(o),
    ;

    fn mul(self, o: Self) -> (r: Self)
        ensures
            r == self.mul_spec(o),
    ;

    fn div(self, o: Self) -> (r: Self)
        ensures
            r == self.div_spec(o),
    ;

    fn abs(self) -> (r: Self)
        ensures
            r == self.abs_spec(),
    ;

    fn le(self, o: Self) -> (r: bool)
        ensures
            r == self.le_spec(o),
    ;

    fn is_finite(&self) -> (r: bool)
        ensures
            r == self.is_finite_spec(),
    ;

    fn is_zero(&self) -> (r: bool)
        ensures
            r == self.is_zero_spec(),
    ;

    /// Zero is a finite zero.
    proof fn lemma_zero_is_finite()
        ensures
            Self::zero_spec().is_finite_spec(),
            Self::zero_spec().is_zero_spec(),
    ;

    /// Zero is neutral for a finite `a`; it absorbs products, and divided by a
    /// non-zero `a` it stays zero.
    proof fn lemma_zero_laws(a: Self)
        requires
            a.is_finite_spec(),
        ensures
            a.add_spec(Self::zero_spec()) == a,
            Self::zero_spec().add_spec(a) == a,
            a.sub_spec(Self::zero_spec()) == a,
            a.mul_spec(Self::zero_spec()) == Self::zero_spec(),
            Self::zero_spec().mul_spec(a) == Self::zero_spec(),
            !a.is_zero_spec() ==> Self::zero_spec().div_spec(a) == Self::zero_spec(),
    ;

    /// A division by zero is not finite.
    proof fn lemma_division_by_zero(a: Self, z: Self)
        requires
            z.is_zero_spec(),
        ensures
            !a.div_spec(z).is_finite_spec(),
    ;

    /// A non-finite operand gives a non-finite product or sum.
    proof fn lemma_non_finite_spreads(a: Self, b: Self)
        requires
            !a.is_finite_spec(),
        ensures
            !a.mul_spec(b).is_finite_spec(),
            !b.add_spec(a).is_finite_spec(),
    ;
}

/// A deterministic real scalar: signed fixed point with `SCALE` raw units per one.
///
/// A result that leaves the representable range, or a division by zero, gives the
/// non-finite value, and every operation on a non-finite operand gives it again; a
/// comparison involving it is false. This mirrors how a non-finite float spreads
/// silently through a computation.
#[derive(Clone, Copy, Debug)]
pub struct Real {
    /// The value times `SCALE`; meaningful only when `finite`.
    pub raw: i64,
    pub finite: bool,
}

impl Real {
    pub fn nan() -> (r: Real)
        ensures
            r == non_finite(),
    {
        Real { raw: 0, finite: false }
    }

    /// The real with raw units `raw`, i.e. the value `raw / SCALE`.
    pub fn from_raw(raw: i64) -> (r: Real)
        ensures
            r.finite,
            r.raw == raw,
    {
        Real { raw, finite: true }
    }
}

impl Scalar for Real {
    open spec fn add_spec(self, o: Real) -> Real {
        if self.finite && o.finite {
            real_of_raw(self.raw + o.raw)
        } else {
            non_finite()
        }
    }

    open spec fn sub_spec(self, o: Real) -> Real {
        if self.finite && o.finite {
            real_of_raw(self.raw - o.raw)
        } else {
            non_finite()
        }
    }

    open spec fn mul_spec(self, o: Real) -> Real {
        if self.finite && o.finite {
            real_of_raw(trunc_div(self.raw * o.raw, SCALE as int))
        } else {
            non_finite()
        }
    }

    open spec fn div_spec(self, o: Real) -> Real {
        if self.finite && o.finite && o.raw != 0 {
            real_of_raw(trunc_div(self.raw * SCALE, o.raw as int))
        } else {
            non_finite()
        }
    }

    open spec fn abs_spec(self) -> Real {
        if self.finite {
            real_of_raw(abs_int(self.raw as int))
        } else {
            non_finite()
        }
    }

    open spec fn le_spec(self, o: Real) -> bool {
        self.finite && o.finite && self.raw <= o.raw
    }

    open spec fn zero_spec() -> Real {
        Real { raw: 0, finite: true }
    }

    open spec fn one_spec() -> Real {
        Real { raw: SCALE, finite: true }
    }

    /// The integer `n` as a real: non-finite when `n` is out of range.
    open spec fn from_int_spec(n: int) -> Real {
        real_of_raw(n * SCALE)
    }

    fn zero() -> (r: Real) {
        Real { raw: 0, finite: true }
    }

    fn one() -> (r: Real) {
        Real { raw: SCALE, finite: true }
    }

    fn from_int(n: i64) -> (r: Real) {
        proof {
            lemma_raw_scaled_bound(n as int);
        }
        fit(n as i128 * SCALE as i128)
    }

    fn add(self, o: Real) -> (r: Real) {
        if self.finite && o.finite {
            fit(self.raw as i128 + o.raw as i128)
        } else {
            Real::nan()
        }
    }

    fn sub(self, o: Real) -> (r: Real) {
        if self.finite && o.finite {
            fit(self.raw as i128 - o.raw as i128)
        } else {
            Real::nan()
        }
    }

    fn mul(self, o: Real) -> (r: Real) {
        if self.finite && o.finite {
            let a = self.raw as i128;
            let b = o.raw as i128;
            proof {
                lemma_raw_product_bound(self.raw as int, o.raw as int);
            }
            fit(quotient_toward_zero(a * b, SCALE as i128))
        } else {
            Real::nan()
        }
    }

    fn div(self, o: Real) -> (r: Real) {
        if self.finite && o.finite && o.raw != 0 {
            let a = self.raw as i128;
            proof {
                lemma_raw_scaled_bound(self.raw as int);
            }
            fit(quotient_toward_zero(a * SCALE as i128, o.raw as i128))
        } else {
            Real::nan()
        }
    }

    fn abs(self) -> (r: Real) {
        if self.finite {
            let a = self.raw as i128;
            fit(if a < 0 {
                -a
            } else {
                a
            })
        } else {
            Real::nan()
        }
    }

    fn le(self, o: Real) -> (r: bool) {
        self.finite && o.finite && self.raw <= o.raw
    }

    fn is_finite(&self) -> (r: bool) {
        self.finite
    }

    open spec fn is_finite_spec(self) -> bool {
        self.finite
    }

    open spec fn is_zero_spec(self) -> bool {
        self.finite && self.raw == 0
    }

    fn is_zero(&self) -> (r: bool) {
        self.finite && self.raw == 0
    }

    proof fn lemma_zero_is_finite() {
    }

    proof fn lemma_zero_laws(a: Self) {
        assert(a.raw * 0 == 0);
        assert(0 * a.raw == 0);
        assert(0 * SCALE == 0);
    }

    proof fn lemma_division_by_zero(a: Self, z: Self) {
    }

    proof fn lemma_non_finite_spreads(a: Self, b: Self) {
    }
}

/// `v` as a real when it fits the raw range, else the non-finite value.
fn fit(v: i128) -> (r: Real)
    ensures
        r == real_of_raw(v as int),
{
    if i64::MIN as i128 <= v && v <= i64::MAX as i128 {
        Real { raw: v as i64, finite: true }
    } else {
        Real::nan()
    }
}

fn quotient_toward_zero(p: i128, d: i128) -> (r: i128)
    requires
        d != 0,
        p > i128::MIN,
        d > i128::MIN,
    ensures
        r as int == trunc_div(p as int, d as int),
{
    let pa: u128 = if p < 0 {
        (-p) as u128
    } else {
        p as u128
    };
    let da: u128 = if d < 0 {
        (-d) as u128
    } else {
        d as u128
    };
    let q: u128 = pa / da;
    proof {
        assert(q <= pa) by (nonlinear_arith)
            requires
                q == pa / da,
                da >= 1,
        ;
    }
    if (p >= 0) == (d > 0) {
        q as i128
    } else {
        -(q as i128)
    }
}

proof fn lemma_raw_product_bound(a: int, b: int)
    requires
        fits_i64(a),
        fits_i64(b),
    ensures
        i128::MIN < a * b <= i128::MAX,
{
    assert(abs_int(a) * abs_int(b) <= 0x8000_0000_0000_0000 * 0x8000_0000_0000_0000)
        by (nonlinear_arith)
        requires
            0 <= abs_int(a) <= 0x8000_0000_0000_0000,
            0 <= abs_int(b) <= 0x8000_0000_0000_0000,
    ;
    assert(abs_int(a * b) == abs_int(a) * abs_int(b)) by (nonlinear_arith);
}

proof fn lemma_raw_scaled_bound(a: int)
    requires
        fits_i64(a),
    ensures
        i128::MIN < a * SCALE <= i128::MAX,
{
    assert(i128::MIN < a * SCALE <= i128::MAX) by (nonlinear_arith)
        requires
            i64::MIN <= a <= i64::MAX,
    ;
}

} // verus!
