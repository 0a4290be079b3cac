use carry::Decimal;
use carry::Venue;
use carry::feed::{FeedConfig, Reconnect, backoff_base_millis};

#[test]
fn doubles_per_attempt() {
    assert_eq!(backoff_base_millis(0), 500);
    assert_eq!(backoff_base_millis(1), 1000);
    assert_eq!(backoff_base_millis(2), 2000);
}

#[test]
fn is_capped() {
    assert_eq!(backoff_base_millis(10), 30_000);
    assert_eq!(backoff_base_millis(u32::MAX), 30_000);
    assert_eq!(backoff_base_millis(5), 16_000);
    assert_eq!(backoff_base_millis(6), 30_000);
}

#[test]
fn reconnect_counts_attempts_and_resets_on_event() {
    let mut r = Reconnect::new();
    assert_eq!(r.on_session_end(), 500);
    assert_eq!(r.on_session_end(), 1000);
    assert_eq!(r.attempt(), 2);
    r.on_event();
    assert_eq!(r.attempt(), 0);
    assert_eq!(r.on_session_end(), 500);
}

#[test]
fn hyperliquid_config_subscribes_to_l2book() {
    let cfg = FeedConfig::hyperliquid("BTC", Decimal::new(1, 1));
    assert_eq!(cfg.venue, Venue::Hyperliquid);
    assert_eq!(cfg.url, "wss://api.hyperliquid.xyz/ws");
    assert_eq!(
        cfg.subscribe,
        r#"{"method":"subscribe","subscription":{"coin":"BTC","type":"l2Book"}}"#
    );
    assert_eq!(cfg.ping, r#"{"method":"ping"}"#);
    assert_eq!(cfg.tick_size, Decimal::new(1, 1));
}

#[test]
fn hyperliquid_config_escapes_the_coin() {
    let cfg = FeedConfig::hyperliquid("A\"B", Decimal::one());
    assert_eq!(
        cfg.subscribe,
        r#"{"method":"subscribe","subscription":{"coin":"A\"B","type":"l2Book"}}"#
    );
}

#[test]
fn lighter_config_subscribes_to_the_market() {
    let cfg = FeedConfig::lighter(1, Decimal::new(1, 1));
    assert_eq!(cfg.venue, Venue::Lighter);
    assert_eq!(cfg.url, "wss://mainnet.zklighter.elliot.ai/stream");
    assert_eq!(cfg.subscribe, r#"{"channel":"order_book/1","type":"subscribe"}"#);
    assert_eq!(cfg.ping, r#"{"type":"ping"}"#);
    assert_eq!(
        FeedConfig::lighter(4_294_967_295, Decimal::one()).subscribe,
        r#"{"channel":"order_book/4294967295","type":"subscribe"}"#
    );
}

#[test]
fn backoff_doubles_until_capped_and_never_shrinks() {
    for attempt in 0u32..64 {
        let now = backoff_base_millis(attempt);
        let next = backoff_base_millis(attempt + 1);
        assert!(now <= 30_000);
        assert_eq!(next, (2 * now).min(30_000));
        assert!(now <= next);
    }
}
