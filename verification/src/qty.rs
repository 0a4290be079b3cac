use vstd::prelude::*;
use core::cmp::Ordering;
use crate::decimal::{Decimal, value_le, value_lt, zero_value};
use crate::error::CarryError;

verus! {

/// A quantity that is not below zero (zero, of either sign, included).
#[derive(Debug, Clone, Copy, PartialEq, Eq)]
pub struct Qty(Decimal);

impl View for Qty {
    type V = Decimal;

    closed spec fn view(&self) -> Decimal {
        self.0
    }
}

impl Qty {
    #[verifier::type_invariant]
    spec fn inv(self) -> bool {
        value_le(zero_value(), self.0@)
    }

    /// Creates a quantity, rejecting a value below zero; a zero of either sign is accepted.
    pub fn new(value: Decimal) -> (r: Result<Qty, CarryError>)
        ensures
            value_lt(value@, zero_value()) ==> r == Err::<Qty, CarryError>(CarryError::InvalidQty(value)),
            !value_lt(value@, zero_value()) ==> (r is Ok && r->Ok_0@ == value),
    {
        if value.lt(&Decimal::zero()) {
            return Err(CarryError::InvalidQty(value));
        }
        Ok(Qty(value))
    }

    /// The underlying decimal value.
    pub fn value(self) -> (v: Decimal)
        ensures
            v == self@,
            value_le(zero_value(), v@),
    {
        proof {
            use_type_invariant(&self);
        }
        self.0
    }

    pub fn is_zero(self) -> (b: bool)
        ensures
            b == self@@.is_zero(),
    {
        self.0.is_zero()
    }
}

/// Quantities compare by value, as their decimals do.
impl PartialOrd for Qty {
    fn partial_cmp(&self, other: &Qty) -> (r: Option<Ordering>) {
        self.0.partial_cmp(&other.0)
    }
}

impl vstd::std_specs::cmp::PartialOrdSpecImpl for Qty {
    open spec fn obeys_partial_cmp_spec() -> bool {
        true
    }

    open spec fn partial_cmp_spec(&self, other: &Qty) -> Option<Ordering> {
        if value_lt(self@@, other@@) {
            Some(Ordering::Less)
        } else if value_lt(other@@, self@@) {
            Some(Ordering::Greater)
        } else {
            Some(Ordering::Equal)
        }
    }
}

} // verus!
