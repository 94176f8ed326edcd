use kalmanfilter::matrix::{dot, outer, Matrix};
use kalmanfilter::scalar::{Real, Scalar};

fn re(x: f64) -> Real {
    Real::from_raw((x * 1e9).round() as i64)
}

#[test]
fn arithmetic_is_exact_to_nine_digits() {
    assert_eq!(re(1.5).add(re(2.25)).raw, 3_750_000_000);
    assert_eq!(re(1.5).sub(re(2.25)).raw, -750_000_000);
    assert_eq!(re(1.5).mul(re(-2.)).raw, -3_000_000_000);
    assert_eq!(re(1.).div(re(3.)).raw, 333_333_333);
    assert_eq!(re(-1.).div(re(3.)).raw, -333_333_333);
    assert_eq!(re(2.).div(re(-4.)).raw, -500_000_000);
    assert_eq!(re(-2.5).abs().raw, 2_500_000_000);
    assert_eq!(Real::from_int(7).raw, 7_000_000_000);
    assert_eq!(Real::one().raw, 1_000_000_000);
    // products round toward zero
    assert_eq!(Real::from_raw(3).mul(re(0.5)).raw, 1);
    assert_eq!(Real::from_raw(-3).mul(re(0.5)).raw, -1);
}

#[test]
fn non_finite_results_spread() {
    assert!(!re(1.).div(Real::zero()).is_finite());
    assert!(!Real::from_raw(i64::MAX).add(Real::from_raw(1)).is_finite());
    assert!(!Real::from_int(i64::MAX).is_finite());
    assert!(!Real::from_raw(i64::MIN).abs().is_finite());
    let nan = Real::nan();
    assert!(!nan.add(re(1.)).is_finite());
    assert!(!re(1.).mul(nan).is_finite());
    assert!(!nan.le(nan));
    assert!(!nan.le(re(1.)));
    assert!(re(1.).le(re(1.)));
    assert!(!re(2.).le(re(1.)));
}

#[test]
fn matrix_products() {
    let a = Matrix::from_rows(vec![vec![re(1.), re(2.)], vec![re(3.), re(4.)]]).unwrap();
    let b = Matrix::from_rows(vec![vec![re(0.), re(1.)], vec![re(1.), re(0.)]]).unwrap();
    let p = a.mul(&b);
    assert_eq!(p.get(0, 0).raw, 2_000_000_000);
    assert_eq!(p.get(0, 1).raw, 1_000_000_000);
    assert_eq!(p.get(1, 0).raw, 4_000_000_000);
    assert_eq!(p.get(1, 1).raw, 3_000_000_000);
    let t = a.transpose();
    assert_eq!(t.get(0, 1).raw, 3_000_000_000);
    let v = a.mul_vec(&vec![re(1.), re(-1.)]);
    assert_eq!(v[0].raw, -1_000_000_000);
    assert_eq!(v[1].raw, -1_000_000_000);
    assert_eq!(dot(&vec![re(1.), re(2.)], &vec![re(3.), re(4.)]).raw, 11_000_000_000);
    let o = outer(&vec![re(1.), re(2.)], &vec![re(3.), re(4.), re(5.)]);
    assert_eq!(o.nrows(), 2);
    assert_eq!(o.ncols(), 3);
    assert_eq!(o.get(1, 2).raw, 10_000_000_000);
    assert!(a.sub(&a).all_within(Real::zero()));
    assert!(!a.all_within(re(3.)));
}

#[test]
fn ragged_rows_are_refused() {
    assert!(Matrix::from_rows(vec![vec![re(1.)], vec![re(1.), re(2.)]]).is_none());
    let empty: Matrix<Real> = Matrix::from_rows(vec![]).unwrap();
    assert_eq!(empty.nrows(), 0);
    assert_eq!(empty.ncols(), 0);
}
