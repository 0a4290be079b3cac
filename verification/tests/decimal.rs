use carry::Decimal;

#[test]
fn comparisons_go_by_value() {
    assert_eq!(Decimal::new(10, 1), Decimal::one());
    assert!(Decimal::new(-1, 0) < Decimal::zero());
    assert!(Decimal::new(101, 2) > Decimal::one());
    assert!(Decimal::zero().neg() == Decimal::zero());
    assert!(Decimal::new(3, 0).le(&Decimal::new(30, 1)));
    assert!(!(Decimal::new(3, 0) < Decimal::new(30, 1)));
}

#[test]
fn min_max_and_clamp() {
    let one = Decimal::one();
    let two = Decimal::new(2, 0);
    assert_eq!(one.min(two), one);
    assert_eq!(one.max(two), two);
    assert_eq!(Decimal::new(5, 0).clamp(one.neg(), one), one);
    assert_eq!(Decimal::new(-5, 0).clamp(one.neg(), one), one.neg());
    assert_eq!(Decimal::new(5, 1).clamp(one.neg(), one), Decimal::new(5, 1));
}

#[test]
fn parts_round_trip() {
    let d = Decimal::new(-12345, 3);
    assert!(d.is_sign_negative());
    assert_eq!(d.mantissa(), 12345);
    assert_eq!(d.scale(), 3);
    assert_eq!(Decimal::from_parts(true, 12345, 3), Some(d));
    assert_eq!(Decimal::from_parts(false, 1, 29), None);
    assert_eq!(Decimal::from_parts(false, 1u128 << 96, 0), None);
    assert_eq!(Decimal::from_u64(7), Decimal::new(7, 0));
}
