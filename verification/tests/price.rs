use carry::{CarryError, Decimal, Price};

#[test]
fn price_new_accepts_positive_and_round_trips() {
    let raw = Decimal::new(10050, 2);
    let price = Price::new(raw).unwrap();
    assert_eq!(price.value(), raw);
}

#[test]
fn new_rejects_zero() {
    assert_eq!(
        Price::new(Decimal::zero()),
        Err(CarryError::InvalidPrice(Decimal::zero()))
    );
}

#[test]
fn price_new_rejects_negative() {
    let raw = Decimal::new(-1, 0);
    assert_eq!(Price::new(raw), Err(CarryError::InvalidPrice(raw)));
}

#[test]
fn prices_order_by_value() {
    let low = Price::new(Decimal::new(100, 0)).unwrap();
    let high = Price::new(Decimal::new(101, 0)).unwrap();
    assert!(low < high);
}

#[test]
fn price_rejects_zero_written_with_a_scale() {
    assert!(Price::new(Decimal::new(0, 3)).is_err());
    assert!(Price::new(Decimal::new(1, 28)).is_ok());
}

#[test]
fn prices_compare_by_value_across_scales() {
    let low = Price::new(Decimal::new(5, 1)).unwrap();
    let high = Price::new(Decimal::new(6, 1)).unwrap();
    let same = Price::new(Decimal::new(50, 2)).unwrap();
    assert!(low < high);
    assert!(high > low);
    assert_eq!(low.partial_cmp(&same), Some(std::cmp::Ordering::Equal));
}
