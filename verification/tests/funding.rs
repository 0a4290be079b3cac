use carry::{CarryError, Decimal, LighterFundingParams, lighter_hourly_funding};

fn crypto(avg_premium: Decimal) -> Result<Decimal, CarryError> {
    lighter_hourly_funding(avg_premium, &LighterFundingParams::crypto())
}

#[test]
fn zero_premium_pays_interest_only() -> Result<(), CarryError> {
    assert_eq!(crypto(Decimal::zero())?, Decimal::new(125, 7));
    Ok(())
}

#[test]
fn small_premium_is_pulled_to_interest_rate() -> Result<(), CarryError> {
    assert_eq!(crypto(Decimal::new(3, 4))?, Decimal::new(125, 7));
    Ok(())
}

#[test]
fn large_premium_only_shifted_by_small_clamp() -> Result<(), CarryError> {
    assert_eq!(crypto(Decimal::new(1, 2))?, Decimal::new(11875, 7));
    Ok(())
}

#[test]
fn caps_at_plus_half_percent_per_hour() -> Result<(), CarryError> {
    assert_eq!(crypto(Decimal::one())?, Decimal::new(5, 3));
    Ok(())
}

#[test]
fn caps_at_minus_half_percent_per_hour() -> Result<(), CarryError> {
    assert_eq!(crypto(Decimal::negative_one())?, Decimal::new(-5, 3));
    Ok(())
}

#[test]
fn premium_multiplier_scales_premium_and_small_clamp() -> Result<(), CarryError> {
    let rwa = LighterFundingParams::new(
        Decimal::new(5, 1),
        Decimal::new(1, 4),
        Decimal::new(5, 4),
        Decimal::new(4, 2),
    )?;
    assert_eq!(
        lighter_hourly_funding(Decimal::new(1, 2), &rwa)?,
        Decimal::new(59375, 8)
    );
    Ok(())
}

#[test]
fn params_reject_negative_clamp() {
    let bad = Decimal::new(-1, 4);
    assert_eq!(
        LighterFundingParams::new(Decimal::one(), Decimal::new(1, 4), bad, Decimal::new(4, 2)),
        Err(CarryError::InvalidFundingParam {
            name: "small_clamp",
            value: bad
        })
    );
}

#[test]
fn params_report_the_first_negative_parameter() {
    let bad = Decimal::new(-2, 0);
    assert_eq!(
        LighterFundingParams::new(bad, Decimal::new(1, 4), bad, bad),
        Err(CarryError::InvalidFundingParam {
            name: "premium_multiplier",
            value: bad
        })
    );
    assert_eq!(
        LighterFundingParams::new(Decimal::one(), Decimal::new(-1, 4), Decimal::one(), bad),
        Err(CarryError::InvalidFundingParam {
            name: "big_clamp",
            value: bad
        })
    );
}

#[test]
fn negative_interest_rate_is_allowed() -> Result<(), CarryError> {
    let params = LighterFundingParams::new(
        Decimal::one(),
        Decimal::new(-1, 4),
        Decimal::new(5, 4),
        Decimal::new(4, 2),
    )?;
    assert_eq!(
        lighter_hourly_funding(Decimal::zero(), &params)?,
        Decimal::new(-125, 7)
    );
    Ok(())
}

#[test]
fn huge_premium_overflows() {
    let max = Decimal::from_parts(false, (1u128 << 96) - 1, 0).unwrap();
    let params = LighterFundingParams::new(
        Decimal::new(2, 0),
        Decimal::new(1, 4),
        Decimal::new(5, 4),
        Decimal::new(4, 2),
    )
    .unwrap();
    assert_eq!(lighter_hourly_funding(max, &params), Err(CarryError::Overflow));
}
