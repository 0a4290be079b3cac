use vstd::prelude::*;
use vstd::std_specs::cmp::PartialOrdSpec;
use core::cmp::Ordering;
use crate::decimal::{Decimal, value_le, value_lt, zero_value};
use crate::error::CarryError;

verus! {

/// A strictly positive price.
#[derive(Debug, Clone, Copy, PartialEq, Eq)]
pub struct Price(Decimal);

impl View for Price {
    type V = Decimal;

    closed spec fn view(&self) -> Decimal {
        self.0
    }
}

impl Price {
    #[verifier::type_invariant]
    spec fn inv(self) -> bool {
        value_lt(zero_value(), self.0@)
    }

    /// Creates a price, rejecting zero and negative values.
    pub fn new(value: Decimal) -> (r: Result<Price, CarryError>)
        ensures
            value_le(value@, zero_value()) ==> r == Err::<Price, CarryError>(
                CarryError::InvalidPrice(value),
            ),
            !value_le(value@, zero_value()) ==> (r is Ok && r->Ok_0@ == value),
    {
        if value.le(&Decimal::zero()) {
            return Err(CarryError::InvalidPrice(value));
        }
        Ok(Price(value))
    }

    /// The underlying decimal value.
    pub fn value(self) -> (v: Decimal)
        ensures
            v == self@,
            value_lt(zero_value(), v@),
    {
        proof {
            use_type_invariant(&self);
        }
        self.0
    }
}

/// Prices compare by value, as their decimals do.
impl PartialOrd for Price {
    fn partial_cmp(&self, other: &Price) -> (r: Option<Ordering>) {
        self.0.partial_cmp(&other.0)
    }
}

impl vstd::std_specs::cmp::PartialOrdSpecImpl for Price {
    open spec fn obeys_partial_cmp_spec() -> bool {
        true
    }

    open spec fn partial_cmp_spec(&self, other: &Price) -> Option<Ordering> {
        if value_lt(self@@, other@@) {
            Some(Ordering::Less)
        } else if value_lt(other@@, self@@) {
            Some(Ordering::Greater)
        } else {
            Some(Ordering::Equal)
        }
    }
}

/// Prices order by value: one price is below another exactly when its value is, and
/// they compare equal exactly when their values are equal.
pub proof fn lemma_prices_order_by_value(a: Price, b: Price)
    ensures
        (a.partial_cmp_spec(&b) == Some(Ordering::Less)) <==> value_lt(a@@, b@@),
        (a.partial_cmp_spec(&b) == Some(Ordering::Greater)) <==> value_lt(b@@, a@@),
        (a.partial_cmp_spec(&b) == Some(Ordering::Equal)) <==> (!value_lt(a@@, b@@) && !value_lt(b@@, a@@)),
{
}

} // verus!
