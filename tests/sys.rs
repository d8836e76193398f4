use dpdk::sys::{cvt, cvt_r, IsMinusOne};

#[test]
fn is_minus_one_on_each_width() {
    assert!((-1i8).is_minus_one());
    assert!((-1i16).is_minus_one());
    assert!((-1i32).is_minus_one());
    assert!((-1i64).is_minus_one());
    assert!((-1isize).is_minus_one());
    assert!(!0i32.is_minus_one());
    assert!(!(-2i64).is_minus_one());
}

#[test]
fn cvt_passes_values_and_flags_minus_one() {
    assert_eq!(cvt(5i32).unwrap(), 5);
    assert_eq!(cvt(0isize).unwrap(), 0);
    assert!(cvt(-1i32).is_err());
}

#[test]
fn cvt_r_returns_first_success() {
    let mut calls = 0;
    let r = cvt_r(|| {
        calls += 1;
        7i64
    });
    assert_eq!(r.unwrap(), 7);
    assert_eq!(calls, 1);
}
