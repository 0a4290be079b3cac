use vstd::prelude::*;
use vstd::std_specs::cmp::PartialOrdSpec;
use core::cmp::Ordering;
use crate::decimal::{
    Decimal, DecimalValue, decimal_checked_div, decimal_checked_mul, exact_product, from_num,
    lemma_fract_is_zero, mantissa_bound, opt_view, pow10, value_eq, value_le, value_lt, whole_multiple,
    zero_value,
};
use crate::error::CarryError;
use crate::price::Price;

verus! {

/// Index of a price level: the price divided by the book's tick size.
#[derive(Debug, Clone, Copy, PartialEq, Eq, Structural, Ord, Hash)]
pub struct Tick(u64);

impl View for Tick {
    type V = u64;

    closed spec fn view(&self) -> u64 {
        self.0
    }
}

impl Tick {
    pub fn new(index: u64) -> (t: Self)
        ensures
            t@ == index,
    {
        Tick(index)
    }

    /// Two ticks with the same index are the same tick.
    pub proof fn lemma_view_injective(a: Tick, b: Tick)
        ensures
            a@ == b@ <==> a == b,
    {
    }

    pub fn index(self) -> (i: u64)
        ensures
            i == self@,
    {
        self.0
    }
}

/// Ticks order by index.
impl PartialOrd for Tick {
    fn partial_cmp(&self, other: &Tick) -> (r: Option<Ordering>) {
        if self.0 < other.0 {
            Some(Ordering::Less)
        } else if other.0 < self.0 {
            Some(Ordering::Greater)
        } else {
            Some(Ordering::Equal)
        }
    }
}

impl vstd::std_specs::cmp::PartialOrdSpecImpl for Tick {
    open spec fn obeys_partial_cmp_spec() -> bool {
        true
    }

    open spec fn partial_cmp_spec(&self, other: &Tick) -> Option<Ordering> {
        if self@ < other@ {
            Some(Ordering::Less)
        } else if other@ < self@ {
            Some(Ordering::Greater)
        } else {
            Some(Ordering::Equal)
        }
    }
}

/// Ticks order by index: a tick is below another exactly when its index is, and two
/// ticks compare equal exactly when they are the same tick.
pub proof fn lemma_ticks_order_by_index(a: Tick, b: Tick)
    ensures
        (a.partial_cmp_spec(&b) == Some(Ordering::Less)) <==> a@ < b@,
        (a.partial_cmp_spec(&b) == Some(Ordering::Greater)) <==> b@ < a@,
        (a.partial_cmp_spec(&b) == Some(Ordering::Equal)) <==> a == b,
{
}

/// What turning the quotient `price / tick_size` into a tick gives: an off-tick error when
/// the quotient has a fractional part, an overflow when it is negative or above `u64::MAX`.
pub open spec fn tick_from_quotient(price: Decimal, tick_size: Decimal, steps: Option<DecimalValue>) -> Result<u64, CarryError> {
    match steps {
        None => Err(CarryError::Overflow),
        Some(q) => if q.mantissa % pow10(q.scale) != 0 {
            Err(CarryError::OffTick { price, tick_size })
        } else if q.negative || q.trunc_magnitude() > u64::MAX {
            Err(CarryError::Overflow)
        } else {
            Ok(q.trunc_magnitude() as u64)
        },
    }
}

/// The tick of `price` on a grid of `tick_size`.
pub open spec fn tick_from_price(price: Decimal, tick_size: Decimal) -> Result<u64, CarryError> {
    if value_le(tick_size@, zero_value()) {
        Err(CarryError::InvalidTickSize(tick_size))
    } else {
        tick_from_quotient(price, tick_size, decimal_checked_div(price@, tick_size@))
    }
}

/// The price of tick `index` on a grid of `tick_size`, before the positivity check.
pub open spec fn price_of_tick(index: u64, tick_size: Decimal) -> Option<DecimalValue> {
    decimal_checked_mul(from_num(index as int, 0), tick_size@)
}

/// A quotient equal in value to a positive whole number `n` becomes tick `n`, whatever
/// scale it is written at.
pub proof fn lemma_whole_quotient_gives_tick(price: Decimal, tick_size: Decimal, q: DecimalValue, n: u64)
    requires
        n > 0,
        value_eq(q, from_num(n as int, 0)),
    ensures
        tick_from_quotient(price, tick_size, Some(q)) == Ok::<u64, CarryError>(n),
{
    crate::decimal::lemma_pow10_positive(q.scale);
    let d = pow10(q.scale) as int;
    let m = n as int;
    assert(pow10(0) == 1);
    assert(from_num(m, 0).num() == m);
    assert(q.num() * 1 == m * d);
    assert(q.num() > 0) by (nonlinear_arith)
        requires
            q.num() == m * d,
            m > 0,
            d > 0,
    {
    }
    assert(q.mantissa == m * d);
    vstd::arithmetic::div_mod::lemma_mod_multiples_basic(m, d);
    vstd::arithmetic::div_mod::lemma_div_multiples_vanish(m, d);
    assert(d * m == m * d) by (nonlinear_arith);
}

/// Views of a tick result as a result over indices.
pub open spec fn tick_result_view(r: Result<Tick, CarryError>) -> Result<u64, CarryError> {
    match r {
        Ok(t) => Ok(t@),
        Err(e) => Err(e),
    }
}

/// What `Tick::to_price` gives for tick `index` on a grid of `tick_size`: an error for a
/// tick size that is not positive, else the product `index · tick_size` when it is a
/// positive price. When that product is exact (a positive tick whose product fits in 96
/// bits), the price is exactly `index` times the tick size.
pub open spec fn to_price_result(index: u64, tick_size: Decimal, r: Result<Price, CarryError>) -> bool {
    &&& value_le(tick_size@, zero_value()) ==> r == Err::<Price, CarryError>(
        CarryError::InvalidTickSize(tick_size),
    )
    &&& !value_le(tick_size@, zero_value()) ==> match price_of_tick(index, tick_size) {
        None => r == Err::<Price, CarryError>(CarryError::Overflow),
        Some(v) => if value_le(v, zero_value()) {
            (r is Err && r->Err_0 is InvalidPrice && r->Err_0->InvalidPrice_0@ == v)
        } else {
            (r is Ok && r->Ok_0@@ == v)
        },
    }
    &&& (!value_le(tick_size@, zero_value()) && index > 0 && index * tick_size@.mantissa
        < mantissa_bound()) ==> (r is Ok && whole_multiple(r->Ok_0@@, tick_size@, index as nat))
}

/// What `Tick::from_price` gives for `price` on a grid of `tick_size`: the tick of the
/// named quotient; and, for a positive tick size, tick `n` whenever the price is exactly
/// `n` times the tick size with `0 < n < 2^64`.
pub open spec fn from_price_result(price: Price, tick_size: Decimal, r: Result<Tick, CarryError>) -> bool {
    &&& tick_result_view(r) == tick_from_price(price@, tick_size)
    &&& forall|n: nat|
        #![trigger whole_multiple(price@@, tick_size@, n)]
        (!value_le(tick_size@, zero_value()) && 0 < n < 0x1_0000_0000_0000_0000 && whole_multiple(
            price@@,
            tick_size@,
            n,
        )) ==> tick_result_view(r) == Ok::<u64, CarryError>(n as u64)
}

/// A positive decimal has a positive mantissa and no negative sign.
proof fn lemma_positive_value(d: DecimalValue)
    requires
        value_lt(zero_value(), d),
    ensures
        d.num() > 0,
        d.mantissa > 0,
        !d.negative,
{
    crate::decimal::lemma_pow10_positive(d.scale);
    assert(pow10(0) == 1);
    assert(zero_value().num() == 0);
    assert(zero_value().den() == 1);
    assert(0 * d.den() == 0);
    assert(d.num() * 1 == d.num());
}

/// The exact product of a positive tick index and a positive tick size is positive and is
/// that index times the tick size.
proof fn lemma_exact_tick_price(index: u64, tick_size: DecimalValue)
    requires
        index > 0,
        value_lt(zero_value(), tick_size),
    ensures
        value_lt(zero_value(), exact_product(from_num(index as int, 0), tick_size)),
        whole_multiple(exact_product(from_num(index as int, 0), tick_size), tick_size, index as nat),
{
    crate::decimal::lemma_pow10_positive(tick_size.scale);
    assert(pow10(0) == 1);
    lemma_positive_value(tick_size);
    let v = exact_product(from_num(index as int, 0), tick_size);
    let m = index as int;
    let t = tick_size.mantissa as int;
    let d = tick_size.den();
    assert(!v.negative);
    assert(v.mantissa == m * t);
    assert(v.den() == d);
    assert(v.num() == m * t);
    assert(tick_size.num() == t);
    assert(m * t > 0) by (nonlinear_arith)
        requires
            m > 0,
            t > 0,
    {
    }
    assert(v.num() * d == m * t * v.den());
}

/// A positive tick's price, when the product is exact, gives back that tick: turning the
/// price from `to_price` into a tick with `from_price`, on the same positive tick size,
/// returns the tick one started from.
pub proof fn lemma_tick_price_round_trip(t: Tick, tick_size: Decimal, price: Price, back: Result<Tick, CarryError>)
    requires
        value_lt(zero_value(), tick_size@),
        t@ > 0,
        t@ * tick_size@.mantissa < mantissa_bound(),
        to_price_result(t@, tick_size, Ok(price)),
        from_price_result(price, tick_size, back),
    ensures
        back == Ok::<Tick, CarryError>(t),
{
    assert(whole_multiple(price@@, tick_size@, t@ as nat));
    assert(tick_result_view(back) == Ok::<u64, CarryError>(t@));
    let b = back->Ok_0;
    Tick::lemma_view_injective(b, t);
}

impl Tick {
    /// The tick for `price`, given `steps`, the quotient of `price` by `tick_size`.
    pub fn from_quotient(price: Price, tick_size: Decimal, steps: Option<Decimal>) -> (r: Result<Tick, CarryError>)
        ensures
            tick_result_view(r) == tick_from_quotient(price@, tick_size, opt_view(steps)),
    {
        match steps {
            None => Err(CarryError::Overflow),
            Some(q) => {
                let f = q.fract();
                proof {
                    lemma_fract_is_zero(q@, f@);
                }
                if !f.is_zero() {
                    return Err(CarryError::OffTick { price: price.value(), tick_size });
                }
                match q.to_u64() {
                    Some(n) => Ok(Tick(n)),
                    None => Err(CarryError::Overflow),
                }
            },
        }
    }

    /// The tick of `price` on a grid of `tick_size`: the quotient `price / tick_size`
    /// when it is a whole number that fits in a `u64`.
    pub fn from_price(price: Price, tick_size: Decimal) -> (r: Result<Tick, CarryError>)
        ensures
            from_price_result(price, tick_size, r),
    {
        if tick_size.le(&Decimal::zero()) {
            return Err(CarryError::InvalidTickSize(tick_size));
        }
        let steps = price.value().checked_div(tick_size);
        let r = Self::from_quotient(price, tick_size, steps);
        proof {
            assert forall|n: nat|
                #![trigger whole_multiple(price@@, tick_size@, n)]
                (!value_le(tick_size@, zero_value()) && 0 < n < 0x1_0000_0000_0000_0000
                    && whole_multiple(price@@, tick_size@, n)) implies tick_result_view(r)
                == Ok::<u64, CarryError>(n as u64) by {
                lemma_positive_value(tick_size@);
                lemma_whole_quotient_gives_tick(price@, tick_size, steps->0@, n as u64);
            }
        }
        r
    }

    /// The price of this tick on a grid of `tick_size`.
    pub fn to_price(self, tick_size: Decimal) -> (r: Result<Price, CarryError>)
        ensures
            to_price_result(self@, tick_size, r),
    {
        if tick_size.le(&Decimal::zero()) {
            return Err(CarryError::InvalidTickSize(tick_size));
        }
        proof {
            if self.0 > 0 {
                lemma_positive_value(tick_size@);
                lemma_exact_tick_price(self.0, tick_size@);
            }
        }
        let index = Decimal::from_u64(self.0);
        let value = match index.checked_mul(tick_size) {
            Some(v) => v,
            None => return Err(CarryError::Overflow),
        };
        Price::new(value)
    }
}

} // verus!
