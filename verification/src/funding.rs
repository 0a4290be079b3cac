use vstd::prelude::*;
use crate::decimal::{
    Decimal, DecimalValue, clamp_value, decimal_checked_add, decimal_checked_div,
    decimal_checked_mul, decimal_checked_sub, from_num, value_le, zero_value,
};
use crate::error::CarryError;

verus! {

/// Parameters of Lighter's hourly funding formula. The premium multiplier and both
/// clamps never carry a negative sign.
#[derive(Debug, Clone, Copy, PartialEq, Eq)]
pub struct LighterFundingParams {
    premium_multiplier: Decimal,
    interest_rate: Decimal,
    small_clamp: Decimal,
    big_clamp: Decimal,
}

/// The four parameters, in the order premium multiplier, interest rate, small clamp,
/// big clamp.
pub struct FundingParamsView {
    pub premium_multiplier: DecimalValue,
    pub interest_rate: DecimalValue,
    pub small_clamp: DecimalValue,
    pub big_clamp: DecimalValue,
}

impl View for LighterFundingParams {
    type V = FundingParamsView;

    closed spec fn view(&self) -> FundingParamsView {
        FundingParamsView {
            premium_multiplier: self.premium_multiplier@,
            interest_rate: self.interest_rate@,
            small_clamp: self.small_clamp@,
            big_clamp: self.big_clamp@,
        }
    }
}

/// Hourly funding rate for an average premium under the given parameters:
/// `clamp(p + clamp(r - p, -s·m, s·m), -b, b) / 8` with `p = premium · m`, where each
/// step is the decimal operation of `rust_decimal` and a failed step is an overflow.
pub open spec fn hourly_funding(avg_premium: DecimalValue, p: FundingParamsView) -> Result<DecimalValue, CarryError> {
    match decimal_checked_mul(avg_premium, p.premium_multiplier) {
        None => Err(CarryError::Overflow),
        Some(premium) => match decimal_checked_mul(p.small_clamp, p.premium_multiplier) {
            None => Err(CarryError::Overflow),
            Some(small) => match decimal_checked_sub(p.interest_rate, premium) {
                None => Err(CarryError::Overflow),
                Some(gap) => {
                    let adj = clamp_value(gap, small.neg(), small);
                    match decimal_checked_add(premium, adj) {
                        None => Err(CarryError::Overflow),
                        Some(small_clamped) => {
                            let big_clamped = clamp_value(small_clamped, p.big_clamp.neg(), p.big_clamp);
                            match decimal_checked_div(big_clamped, from_num(8, 0)) {
                                None => Err(CarryError::Overflow),
                                Some(rate) => Ok(rate),
                            }
                        },
                    }
                },
            },
        },
    }
}

impl LighterFundingParams {
    #[verifier::type_invariant]
    spec fn inv(self) -> bool {
        &&& !self.premium_multiplier@.negative
        &&& !self.small_clamp@.negative
        &&& !self.big_clamp@.negative
    }

    /// Checks the parameters: the premium multiplier, then the small clamp, then the big
    /// clamp must not carry a negative sign; the first that does is reported.
    pub fn new(
        premium_multiplier: Decimal,
        interest_rate: Decimal,
        small_clamp: Decimal,
        big_clamp: Decimal,
    ) -> (r: Result<Self, CarryError>)
        ensures
            premium_multiplier@.negative ==> r == Err::<Self, CarryError>(
                CarryError::InvalidFundingParam { name: "premium_multiplier", value: premium_multiplier },
            ),
            !premium_multiplier@.negative && small_clamp@.negative ==> r == Err::<Self, CarryError>(
                CarryError::InvalidFundingParam { name: "small_clamp", value: small_clamp },
            ),
            !premium_multiplier@.negative && !small_clamp@.negative && big_clamp@.negative ==> r
                == Err::<Self, CarryError>(
                CarryError::InvalidFundingParam { name: "big_clamp", value: big_clamp },
            ),
            !premium_multiplier@.negative && !small_clamp@.negative && !big_clamp@.negative ==> (r is Ok
                && r->Ok_0@ == (FundingParamsView {
                premium_multiplier: premium_multiplier@,
                interest_rate: interest_rate@,
                small_clamp: small_clamp@,
                big_clamp: big_clamp@,
            })),
    {
        if premium_multiplier.is_sign_negative() {
            return Err(CarryError::InvalidFundingParam { name: "premium_multiplier", value: premium_multiplier });
        }
        if small_clamp.is_sign_negative() {
            return Err(CarryError::InvalidFundingParam { name: "small_clamp", value: small_clamp });
        }
        if big_clamp.is_sign_negative() {
            return Err(CarryError::InvalidFundingParam { name: "big_clamp", value: big_clamp });
        }
        Ok(LighterFundingParams { premium_multiplier, interest_rate, small_clamp, big_clamp })
    }

    /// The parameters of crypto markets: multiplier 1, interest 0.0001, small clamp
    /// 0.0005, big clamp 0.04.
    pub fn crypto() -> (p: Self)
        ensures
            p@ == (FundingParamsView {
                premium_multiplier: from_num(1, 0),
                interest_rate: from_num(1, 4),
                small_clamp: from_num(5, 4),
                big_clamp: from_num(4, 2),
            }),
    {
        LighterFundingParams {
            premium_multiplier: Decimal::one(),
            interest_rate: Decimal::new(1, 4),
            small_clamp: Decimal::new(5, 4),
            big_clamp: Decimal::new(4, 2),
        }
    }
}

/// Lighter's hourly funding rate for an average premium.
pub fn lighter_hourly_funding(avg_premium: Decimal, params: &LighterFundingParams) -> (r: Result<Decimal, CarryError>)
    ensures
        match hourly_funding(avg_premium@, params@) {
            Ok(v) => (r is Ok && r->Ok_0@ == v),
            Err(e) => r == Err::<Decimal, CarryError>(e),
        },
{
    proof {
        use_type_invariant(params);
    }
    let premium = match avg_premium.checked_mul(params.premium_multiplier) {
        Some(v) => v,
        None => return Err(CarryError::Overflow),
    };
    let small = match params.small_clamp.checked_mul(params.premium_multiplier) {
        Some(v) => v,
        None => return Err(CarryError::Overflow),
    };
    let gap = match params.interest_rate.checked_sub(premium) {
        Some(v) => v,
        None => return Err(CarryError::Overflow),
    };
    let neg_small = small.neg();
    proof {
        lemma_neg_le_self(small@);
    }
    let interest_adj = gap.clamp(neg_small, small);
    let small_clamped = match premium.checked_add(interest_adj) {
        Some(v) => v,
        None => return Err(CarryError::Overflow),
    };
    proof {
        lemma_neg_le_self(params.big_clamp@);
    }
    let big_clamped = small_clamped.clamp(params.big_clamp.neg(), params.big_clamp);
    match big_clamped.checked_div(Decimal::from_u64(8)) {
        Some(v) => Ok(v),
        None => Err(CarryError::Overflow),
    }
}

/// The negation of a decimal without a negative sign is at most the decimal.
proof fn lemma_neg_le_self(d: DecimalValue)
    requires
        !d.negative,
    ensures
        value_le(d.neg(), d),
{
    crate::decimal::lemma_pow10_positive(d.scale);
    let m = d.mantissa as int;
    let den = d.den();
    assert(-m * den <= m * den) by (nonlinear_arith)
        requires
            m >= 0,
            den > 0,
    {
    }
}

} // verus!
