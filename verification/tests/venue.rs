use carry::{CarryError, Venue};

#[test]
fn display_is_lowercase_name() {
    assert_eq!(Venue::Hyperliquid.to_string(), "hyperliquid");
    assert_eq!(Venue::Lighter.to_string(), "lighter");
}

#[test]
fn parse_round_trips_display() -> Result<(), CarryError> {
    for venue in Venue::ALL {
        assert_eq!(venue.to_string().parse::<Venue>()?, venue);
    }
    Ok(())
}

#[test]
fn parse_is_case_insensitive_and_accepts_alias() -> Result<(), CarryError> {
    assert_eq!("HyperLiquid".parse::<Venue>()?, Venue::Hyperliquid);
    assert_eq!("hl".parse::<Venue>()?, Venue::Hyperliquid);
    assert_eq!("LIGHTER".parse::<Venue>()?, Venue::Lighter);
    Ok(())
}

#[test]
fn parse_rejects_unknown() {
    assert_eq!(
        "binance".parse::<Venue>(),
        Err(CarryError::UnknownVenue("binance".to_owned()))
    );
}

#[test]
fn as_str_gives_the_lowercase_name() {
    assert_eq!(Venue::Hyperliquid.as_str(), "hyperliquid");
    assert_eq!(Venue::Lighter.as_str(), "lighter");
}

#[test]
fn parse_keeps_non_ascii_and_rejects_near_misses() {
    assert_eq!(
        Venue::parse("HL "),
        Err(CarryError::UnknownVenue("HL ".to_owned()))
    );
    assert_eq!(
        Venue::parse("lighterx"),
        Err(CarryError::UnknownVenue("lighterx".to_owned()))
    );
    assert_eq!(Venue::parse("hL"), Ok(Venue::Hyperliquid));
}
