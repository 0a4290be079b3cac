use vstd::prelude::*;
use crate::decimal::Decimal;
use crate::venue::Venue;

verus! {

/// Where and how to subscribe to one venue's book.
#[derive(Debug, Clone)]
pub struct FeedConfig {
    pub venue: Venue,
    pub url: String,
    pub subscribe: String,
    pub ping: String,
    pub tick_size: Decimal,
}

/// What `serde_json` writes for a JSON string value holding `s` (quoted and escaped).
pub uninterp spec fn json_string_literal(s: Seq<char>) -> Seq<char>;

/// `s` holds no character that JSON escapes: no quote, no backslash, no control character.
pub open spec fn json_plain(s: Seq<char>) -> bool {
    forall|i: int| 0 <= i < s.len() ==> #[trigger] s[i] != '"' && s[i] != '\\' && (s[i] as int) >= 0x20
}

/// `serde_json`'s writing of a string value: the string between double quotes, with
/// quotes, backslashes and control characters escaped; a string without any of those
/// comes out unchanged between the quotes.
#[verifier::external_body]
fn json_quote(s: &str) -> (r: String)
    ensures
        r@ == json_string_literal(s@),
        json_plain(s@) ==> r@ == seq!['"'] + s@ + seq!['"'],
{
    serde_json::Value::from(s).to_string()
}

/// `String::push_str`: appends `t`.
#[verifier::external_body]
fn push_str(s: &mut String, t: &str)
    ensures
        final(s)@ == old(s)@ + t@,
{
    s.push_str(t)
}

/// The decimal digit for `d < 10`.
pub open spec fn digit_char(d: nat) -> char {
    ((d + 48) as int) as char
}

/// The decimal writing of `n`, without leading zeros.
pub open spec fn decimal_digits(n: nat) -> Seq<char>
    decreases n,
{
    if n < 10 {
        seq![digit_char(n)]
    } else {
        decimal_digits(n / 10).push(digit_char(n % 10))
    }
}

/// `u32`'s `to_string`: its decimal writing.
#[verifier::external_body]
fn u32_to_string(n: u32) -> (r: String)
    ensures
        r@ == decimal_digits(n as nat),
{
    n.to_string()
}

/// The subscription message for Hyperliquid's `l2Book` channel of `coin`.
pub open spec fn hl_subscribe(coin: Seq<char>) -> Seq<char> {
    "{\"method\":\"subscribe\",\"subscription\":{\"coin\":"@ + json_string_literal(coin)
        + ",\"type\":\"l2Book\"}}"@
}

/// The subscription message for Lighter's order book channel of `market_id`.
pub open spec fn lighter_subscribe(market_id: u32) -> Seq<char> {
    "{\"channel\":"@ + json_string_literal("order_book/"@ + decimal_digits(market_id as nat))
        + ",\"type\":\"subscribe\"}"@
}

impl FeedConfig {
    /// The feed of Hyperliquid's book of `coin`.
    pub fn hyperliquid(coin: &str, tick_size: Decimal) -> (c: Self)
        ensures
            c.venue == Venue::Hyperliquid,
            c.url@ == "wss://api.hyperliquid.xyz/ws"@,
            c.subscribe@ == hl_subscribe(coin@),
            c.ping@ == "{\"method\":\"ping\"}"@,
            c.tick_size == tick_size,
    {
        let mut subscribe = "{\"method\":\"subscribe\",\"subscription\":{\"coin\":".to_owned();
        let quoted = json_quote(coin);
        push_str(&mut subscribe, quoted.as_str());
        push_str(&mut subscribe, ",\"type\":\"l2Book\"}}");
        FeedConfig {
            venue: Venue::Hyperliquid,
            url: "wss://api.hyperliquid.xyz/ws".to_owned(),
            subscribe,
            ping: "{\"method\":\"ping\"}".to_owned(),
            tick_size,
        }
    }

    /// The feed of Lighter's book of market `market_id`.
    pub fn lighter(market_id: u32, tick_size: Decimal) -> (c: Self)
        ensures
            c.venue == Venue::Lighter,
            c.url@ == "wss://mainnet.zklighter.elliot.ai/stream"@,
            c.subscribe@ == lighter_subscribe(market_id),
            c.ping@ == "{\"type\":\"ping\"}"@,
            c.tick_size == tick_size,
    {
        let mut channel = "order_book/".to_owned();
        let digits = u32_to_string(market_id);
        push_str(&mut channel, digits.as_str());
        let mut subscribe = "{\"channel\":".to_owned();
        let quoted = json_quote(channel.as_str());
        push_str(&mut subscribe, quoted.as_str());
        push_str(&mut subscribe, ",\"type\":\"subscribe\"}");
        FeedConfig {
            venue: Venue::Lighter,
            url: "wss://mainnet.zklighter.elliot.ai/stream".to_owned(),
            subscribe,
            ping: "{\"type\":\"ping\"}".to_owned(),
            tick_size,
        }
    }
}

/// 2^n.
pub open spec fn two_pow(n: nat) -> nat
    decreases n,
{
    if n == 0 {
        1
    } else {
        2 * two_pow((n - 1) as nat)
    }
}

/// `2u32.saturating_pow(n)`: 2^n, or `u32::MAX` once that does not fit.
pub open spec fn two_pow_saturating(n: nat) -> nat {
    if n >= 32 {
        u32::MAX as nat
    } else {
        two_pow(n)
    }
}

/// The reconnection delay before jitter, in milliseconds: 500 ms doubled per attempt,
/// capped at 30 s.
pub open spec fn backoff_millis(attempt: nat) -> nat {
    let d = 500 * two_pow_saturating(attempt);
    if d < 30000 {
        d
    } else {
        30000
    }
}

proof fn lemma_two_pow_31()
    ensures
        two_pow(31) == 0x8000_0000,
{
    reveal_with_fuel(two_pow, 32);
}

/// The reconnection delay before jitter for attempt `attempt`, in milliseconds.
pub fn backoff_base_millis(attempt: u32) -> (ms: u64)
    ensures
        ms == backoff_millis(attempt as nat),
{
    let steps: u32 = if attempt < 32 {
        attempt
    } else {
        32
    };
    let mut p: u32 = 1;
    let mut i: u32 = 0;
    proof {
        lemma_two_pow_31();
    }
    while i < steps
        invariant
            i <= steps <= 32,
            steps == (if attempt < 32 { attempt } else { 32 }),
            p == two_pow_saturating(i as nat),
            two_pow(31) == 0x8000_0000,
        decreases steps - i,
    {
        proof {
            lemma_two_pow_monotone(i as nat);
        }
        if p > u32::MAX / 2 {
            p = u32::MAX;
        } else {
            p = p * 2;
        }
        i = i + 1;
    }
    assert(p == two_pow_saturating(attempt as nat));
    let d: u64 = 500 * (p as u64);
    if d < 30000 {
        d
    } else {
        30000
    }
}

/// Below 31, 2^n fits in 31 bits; at 31 it is the top bit.
proof fn lemma_two_pow_monotone(n: nat)
    requires
        n < 32,
    ensures
        n < 31 ==> two_pow(n) <= 0x4000_0000,
        n == 31 ==> two_pow(n) == 0x8000_0000,
{
    reveal_with_fuel(two_pow, 32);
    lemma_two_pow_le(n, 30);
}

/// 2^m <= 2^n when m <= n.
proof fn lemma_two_pow_le(m: nat, n: nat)
    ensures
        m <= n ==> two_pow(m) <= two_pow(n),
    decreases n,
{
    if m < n {
        lemma_two_pow_le(m, (n - 1) as nat);
    }
}

/// Each further attempt doubles the delay until it reaches the 30 s cap, where it stays:
/// the delay never exceeds 30 s, and a later attempt never waits less than an earlier one.
pub proof fn lemma_backoff_doubles_until_capped(attempt: nat, later: nat)
    ensures
        backoff_millis(attempt) <= 30000,
        backoff_millis(attempt + 1) == (if 2 * backoff_millis(attempt) < 30000 {
            2 * backoff_millis(attempt)
        } else {
            30000
        }),
        attempt <= later ==> backoff_millis(attempt) <= backoff_millis(later),
    decreases later,
{
    lemma_two_pow_31();
    if attempt < 31 {
        assert(two_pow_saturating(attempt + 1) == 2 * two_pow_saturating(attempt));
    } else if attempt == 31 {
        assert(backoff_millis(attempt) == 30000);
    }
    if attempt < later {
        lemma_backoff_doubles_until_capped(attempt, (later - 1) as nat);
        lemma_backoff_doubles_until_capped((later - 1) as nat, (later - 1) as nat);
    }
}

/// The reconnection state of a feed: how many sessions in a row ended without a book
/// event.
#[derive(Debug, Clone, Copy)]
pub struct Reconnect {
    attempt: u32,
}

impl View for Reconnect {
    type V = u32;

    closed spec fn view(&self) -> u32 {
        self.attempt
    }
}

impl Reconnect {
    pub fn new() -> (r: Self)
        ensures
            r@ == 0,
    {
        Reconnect { attempt: 0 }
    }

    pub fn attempt(&self) -> (a: u32)
        ensures
            a == self@,
    {
        self.attempt
    }

    /// A book event arrived: the next reconnection starts from the shortest delay.
    pub fn on_event(&mut self)
        ensures
            final(self)@ == 0,
    {
        self.attempt = 0;
    }

    /// A session ended: the delay to wait before reconnecting, before jitter, in
    /// milliseconds; the attempt count goes up by one, saturating.
    pub fn on_session_end(&mut self) -> (ms: u64)
        ensures
            ms == backoff_millis(old(self)@ as nat),
            final(self)@ == (if old(self)@ == u32::MAX { u32::MAX } else { (old(self)@ + 1) as u32 }),
    {
        let ms = backoff_base_millis(self.attempt);
        self.attempt = self.attempt.saturating_add(1);
        ms
    }
}

} // verus!
