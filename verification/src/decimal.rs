use vstd::prelude::*;
use vstd::std_specs::cmp::PartialEqSpecImpl;
use vstd::std_specs::cmp::PartialOrdSpecImpl;
use core::cmp::Ordering;

verus! {

/// Upper bound (exclusive) of a decimal's mantissa: 2^96.
pub open spec fn mantissa_bound() -> int {
    0x1_0000_0000_0000_0000_0000_0000
}

/// Largest scale a decimal can carry.
pub open spec fn max_scale() -> nat {
    28
}

/// 10^n.
pub open spec fn pow10(n: nat) -> nat
    decreases n,
{
    if n == 0 {
        1
    } else {
        10 * pow10((n - 1) as nat)
    }
}

/// Mathematical model of a decimal number: a sign flag, an unsigned mantissa and a
/// scale; its value is `±mantissa / 10^scale`. The sign flag may be set on zero.
pub struct DecimalValue {
    pub negative: bool,
    pub mantissa: nat,
    pub scale: nat,
}

impl DecimalValue {
    /// The mantissa fits in 96 bits and the scale is at most 28.
    pub open spec fn wf(self) -> bool {
        self.mantissa < mantissa_bound() && self.scale <= max_scale()
    }

    /// Signed numerator of the value.
    pub open spec fn num(self) -> int {
        if self.negative {
            -(self.mantissa as int)
        } else {
            self.mantissa as int
        }
    }

    /// Denominator of the value: 10^scale.
    pub open spec fn den(self) -> int {
        pow10(self.scale) as int
    }

    pub open spec fn is_zero(self) -> bool {
        self.mantissa == 0
    }

    /// The same number with the sign flag flipped.
    pub open spec fn neg(self) -> DecimalValue {
        DecimalValue { negative: !self.negative, mantissa: self.mantissa, scale: self.scale }
    }

    /// The fractional part: the value minus its truncation toward zero.
    pub open spec fn fract(self) -> DecimalValue {
        DecimalValue {
            negative: self.negative,
            mantissa: self.mantissa % pow10(self.scale),
            scale: self.scale,
        }
    }

    /// The value truncated toward zero, as an unsigned magnitude.
    pub open spec fn trunc_magnitude(self) -> nat {
        self.mantissa / pow10(self.scale)
    }
}

/// Powers of ten are positive.
pub proof fn lemma_pow10_positive(n: nat)
    ensures
        pow10(n) > 0,
    decreases n,
{
    if n > 0 {
        lemma_pow10_positive((n - 1) as nat);
    }
}

/// A decimal equal in value to the fractional part of `d` is zero exactly when
/// `d` is a whole number.
pub proof fn lemma_fract_is_zero(d: DecimalValue, f: DecimalValue)
    requires
        value_eq(f, d.fract()),
    ensures
        f.is_zero() <==> d.mantissa % pow10(d.scale) == 0,
{
    lemma_pow10_positive(d.scale);
    lemma_pow10_positive(f.scale);
    let a = f.num();
    let b = d.fract().num();
    let fd = f.den();
    let dd = d.fract().den();
    assert(a * dd == b * fd);
    assert(a == 0 <==> b == 0) by (nonlinear_arith)
        requires
            a * dd == b * fd,
            fd > 0,
            dd > 0,
    {
    }
}

/// `a < b` as numbers.
pub open spec fn value_lt(a: DecimalValue, b: DecimalValue) -> bool {
    a.num() * b.den() < b.num() * a.den()
}

/// `a <= b` as numbers.
pub open spec fn value_le(a: DecimalValue, b: DecimalValue) -> bool {
    !value_lt(b, a)
}

/// `a == b` as numbers (the representation may differ).
pub open spec fn value_eq(a: DecimalValue, b: DecimalValue) -> bool {
    a.num() * b.den() == b.num() * a.den()
}

/// A decimal whose value is the integer `n` over `10^scale`.
pub open spec fn from_num(n: int, scale: nat) -> DecimalValue {
    DecimalValue {
        negative: n < 0,
        mantissa: (if n < 0 { -n } else { n }) as nat,
        scale: scale,
    }
}

/// Zero with scale 0 and no sign.
pub open spec fn zero_value() -> DecimalValue {
    DecimalValue { negative: false, mantissa: 0, scale: 0 }
}

/// `n` fits in a 96-bit signed-magnitude mantissa.
pub open spec fn fits_mantissa(n: int) -> bool {
    -mantissa_bound() < n < mantissa_bound()
}

/// The larger of the two scales: the scale at which two decimals line up.
pub open spec fn common_scale(a: DecimalValue, b: DecimalValue) -> nat {
    if a.scale >= b.scale {
        a.scale
    } else {
        b.scale
    }
}

/// Numerator of `a` written at scale `s` (with `s >= a.scale`).
pub open spec fn num_at(a: DecimalValue, s: nat) -> int {
    a.num() * (pow10((s - a.scale) as nat) as int)
}

/// Both operands and the exact sum `a + sign * b` fit once lined up at the common scale.
pub open spec fn lined_up_fits(a: DecimalValue, b: DecimalValue, sign: int) -> bool {
    let s = common_scale(a, b);
    &&& fits_mantissa(num_at(a, s))
    &&& fits_mantissa(num_at(b, s))
    &&& fits_mantissa(num_at(a, s) + sign * num_at(b, s))
}

/// The exact value `a + sign * b` at the common scale.
pub open spec fn exact_sum(a: DecimalValue, b: DecimalValue, sign: int) -> DecimalValue {
    let s = common_scale(a, b);
    from_num(num_at(a, s) + sign * num_at(b, s), s)
}

/// The exact product, when both operands are nonzero.
pub open spec fn exact_product(a: DecimalValue, b: DecimalValue) -> DecimalValue {
    DecimalValue {
        negative: a.negative != b.negative,
        mantissa: a.mantissa * b.mantissa,
        scale: a.scale + b.scale,
    }
}

/// The value of `a` is `n` times the value of `b`.
pub open spec fn whole_multiple(a: DecimalValue, b: DecimalValue, n: nat) -> bool {
    a.num() * b.den() == (n as int) * b.num() * a.den()
}

/// What `rust_decimal`'s `checked_add` returns for two decimals.
pub uninterp spec fn decimal_checked_add(a: DecimalValue, b: DecimalValue) -> Option<DecimalValue>;

/// What `rust_decimal`'s `checked_sub` returns for two decimals.
pub uninterp spec fn decimal_checked_sub(a: DecimalValue, b: DecimalValue) -> Option<DecimalValue>;

/// What `rust_decimal`'s `checked_mul` returns for two decimals.
pub uninterp spec fn decimal_checked_mul(a: DecimalValue, b: DecimalValue) -> Option<DecimalValue>;

/// What `rust_decimal`'s `checked_div` returns for two decimals.
pub uninterp spec fn decimal_checked_div(a: DecimalValue, b: DecimalValue) -> Option<DecimalValue>;

/// The decimal whose view is `v`.
pub open spec fn decimal_of(v: DecimalValue) -> Decimal {
    choose|d: Decimal| d@ == v
}

/// A decimal is determined by its view.
pub proof fn lemma_decimal_of(d: Decimal)
    ensures
        decimal_of(d@) == d,
{
    let c = decimal_of(d@);
    assert(c@ == d@);
    assert(c.negative == d.negative && c.mantissa == d.mantissa && c.scale == d.scale);
}

/// The view of an optional decimal.
pub open spec fn opt_view(d: Option<Decimal>) -> Option<DecimalValue> {
    match d {
        Some(x) => Some(x@),
        None => None,
    }
}

/// A fixed-point decimal number with a 96-bit mantissa and a scale of at most 28,
/// laid out as `rust_decimal` lays out its own: the arithmetic is `rust_decimal`'s.
#[derive(Debug, Clone, Copy)]
pub struct Decimal {
    negative: bool,
    mantissa: u128,
    scale: u32,
}

impl View for Decimal {
    type V = DecimalValue;

    closed spec fn view(&self) -> DecimalValue {
        DecimalValue {
            negative: self.negative,
            mantissa: self.mantissa as nat,
            scale: self.scale as nat,
        }
    }
}

impl Decimal {
    #[verifier::type_invariant]
    spec fn inv(self) -> bool {
        &&& self.mantissa < 0x1_0000_0000_0000_0000_0000_0000
        &&& self.scale <= 28
    }

    /// The decimal `num / 10^scale`, as `rust_decimal::Decimal::new` builds it.
    pub fn new(num: i64, scale: u32) -> (d: Decimal)
        requires
            scale <= 28,
        ensures
            d@ == from_num(num as int, scale as nat),
            d@.wf(),
    {
        let mantissa: u128 = if num < 0 {
            (0i128 - (num as i128)) as u128
        } else {
            num as u128
        };
        Decimal { negative: num < 0, mantissa, scale }
    }

    /// Builds a decimal from its parts; `None` when the mantissa needs more than 96 bits
    /// or the scale is above 28.
    pub fn from_parts(negative: bool, mantissa: u128, scale: u32) -> (d: Option<Decimal>)
        ensures
            (mantissa < mantissa_bound() && scale <= 28) ==> (d is Some && d->0@
                == (DecimalValue { negative, mantissa: mantissa as nat, scale: scale as nat })),
            !(mantissa < mantissa_bound() && scale <= 28) ==> (d is None),
    {
        if mantissa < 0x1_0000_0000_0000_0000_0000_0000 && scale <= 28 {
            Some(Decimal { negative, mantissa, scale })
        } else {
            None
        }
    }

    pub fn zero() -> (d: Decimal)
        ensures
            d@ == zero_value(),
    {
        Decimal { negative: false, mantissa: 0, scale: 0 }
    }

    pub fn one() -> (d: Decimal)
        ensures
            d@ == from_num(1, 0),
    {
        Decimal { negative: false, mantissa: 1, scale: 0 }
    }

    pub fn negative_one() -> (d: Decimal)
        ensures
            d@ == from_num(-1, 0),
    {
        Decimal { negative: true, mantissa: 1, scale: 0 }
    }

    /// The integer `n` at scale 0.
    pub fn from_u64(n: u64) -> (d: Decimal)
        ensures
            d@ == from_num(n as int, 0),
    {
        Decimal { negative: false, mantissa: n as u128, scale: 0 }
    }

    pub fn is_zero(&self) -> (b: bool)
        ensures
            b == self@.is_zero(),
    {
        self.mantissa == 0
    }

    pub fn is_sign_negative(&self) -> (b: bool)
        ensures
            b == self@.negative,
    {
        self.negative
    }

    pub fn mantissa(&self) -> (m: u128)
        ensures
            m == self@.mantissa,
            m < mantissa_bound(),
    {
        proof {
            use_type_invariant(self);
        }
        self.mantissa
    }

    pub fn scale(&self) -> (s: u32)
        ensures
            s == self@.scale,
            s <= 28,
    {
        proof {
            use_type_invariant(self);
        }
        self.scale
    }

    /// The same number with the sign flag flipped, as `rust_decimal`'s negation does.
    pub fn neg(&self) -> (d: Decimal)
        ensures
            d@ == self@.neg(),
    {
        proof {
            use_type_invariant(self);
        }
        Decimal { negative: !self.negative, mantissa: self.mantissa, scale: self.scale }
    }

    /// `self <= other` as numbers; both, like every decimal, have a mantissa below 2^96
    /// and a scale of at most 28.
    pub fn le(&self, other: &Decimal) -> (b: bool)
        ensures
            b == value_le(self@, other@),
            self@.wf(),
            other@.wf(),
    {
        proof {
            use_type_invariant(self);
            use_type_invariant(other);
        }
        !other.lt(self)
    }

    /// The smaller of the two, keeping `self` when they are equal.
    pub fn min(self, other: Decimal) -> (d: Decimal)
        ensures
            d == (if value_lt(other@, self@) { other } else { self }),
    {
        if other.lt(&self) {
            other
        } else {
            self
        }
    }

    /// The larger of the two, keeping `self` when they are equal.
    pub fn max(self, other: Decimal) -> (d: Decimal)
        ensures
            d == (if value_lt(self@, other@) { other } else { self }),
    {
        if self.lt(&other) {
            other
        } else {
            self
        }
    }

    /// Restricts `self` to `[min, max]`, comparing as numbers.
    pub fn clamp(self, min: Decimal, max: Decimal) -> (d: Decimal)
        requires
            value_le(min@, max@),
        ensures
            d == clamp_spec(self, min, max),
            d@ == clamp_value(self@, min@, max@),
    {
        if self.lt(&min) {
            min
        } else if max.lt(&self) {
            max
        } else {
            self
        }
    }

    /// `rust_decimal`'s `<`: compares the two numbers by value.
    #[verifier::external_body]
    pub(crate) fn lt(&self, other: &Decimal) -> (b: bool)
        ensures
            b == value_lt(self@, other@),
    {
        let mut x = rust_decimal::Decimal::from_i128_with_scale(self.mantissa as i128, self.scale);
        x.set_sign_negative(self.negative);
        let mut y = rust_decimal::Decimal::from_i128_with_scale(other.mantissa as i128, other.scale);
        y.set_sign_negative(other.negative);
        x < y
    }

    /// `rust_decimal`'s `==`: equality of the two numbers by value (`0 == -0`, `1.0 == 1`).
    #[verifier::external_body]
    pub(crate) fn value_equals(&self, other: &Decimal) -> (b: bool)
        ensures
            b == value_eq(self@, other@),
    {
        let mut x = rust_decimal::Decimal::from_i128_with_scale(self.mantissa as i128, self.scale);
        x.set_sign_negative(self.negative);
        let mut y = rust_decimal::Decimal::from_i128_with_scale(other.mantissa as i128, other.scale);
        y.set_sign_negative(other.negative);
        x == y
    }

    /// `rust_decimal`'s `checked_add`. The result is named by `decimal_checked_add`; when
    /// both operands and the exact sum fit in 96 bits at the common scale, it is the
    /// exact sum; the sum of two non-negative decimals is not negative.
    #[verifier::external_body]
    pub(crate) fn checked_add(self, other: Decimal) -> (r: Option<Decimal>)
        ensures
            decimal_checked_add(self@, other@) == opt_view(r),
            lined_up_fits(self@, other@, 1) ==> (r is Some && value_eq(r->0@, exact_sum(self@, other@, 1))),
            (r is Some && value_le(zero_value(), self@) && value_le(zero_value(), other@)) ==> value_le(
                zero_value(),
                r->0@,
            ),
    {
        let mut x = rust_decimal::Decimal::from_i128_with_scale(self.mantissa as i128, self.scale);
        x.set_sign_negative(self.negative);
        let mut y = rust_decimal::Decimal::from_i128_with_scale(other.mantissa as i128, other.scale);
        y.set_sign_negative(other.negative);
        match x.checked_add(y) {
            Some(z) => Some(Decimal { negative: z.is_sign_negative(), mantissa: z.mantissa().unsigned_abs(), scale: z.scale() }),
            None => None,
        }
    }

    /// `rust_decimal`'s `checked_sub`. The result is named by `decimal_checked_sub`; when
    /// both operands and the exact difference fit in 96 bits at the common scale, it is
    /// the exact difference; the difference of two decimals without a negative sign is
    /// always in range (its magnitude is at most the larger operand's).
    #[verifier::external_body]
    pub(crate) fn checked_sub(self, other: Decimal) -> (r: Option<Decimal>)
        ensures
            decimal_checked_sub(self@, other@) == opt_view(r),
            lined_up_fits(self@, other@, -1) ==> (r is Some && value_eq(r->0@, exact_sum(self@, other@, -1))),
            (value_le(zero_value(), self@) && value_le(zero_value(), other@)) ==> (r is Some),
            (r is Some && value_le(other@, self@)) ==> value_le(zero_value(), r->0@),
    {
        let mut x = rust_decimal::Decimal::from_i128_with_scale(self.mantissa as i128, self.scale);
        x.set_sign_negative(self.negative);
        let mut y = rust_decimal::Decimal::from_i128_with_scale(other.mantissa as i128, other.scale);
        y.set_sign_negative(other.negative);
        match x.checked_sub(y) {
            Some(z) => Some(Decimal { negative: z.is_sign_negative(), mantissa: z.mantissa().unsigned_abs(), scale: z.scale() }),
            None => None,
        }
    }

    /// `rust_decimal`'s `checked_mul`. The result is named by `decimal_checked_mul`. A zero
    /// operand gives an unsigned zero; when the exact product fits in 96 bits with a scale
    /// of at most 28 it is returned as is; a negative result has operands of unlike signs.
    #[verifier::external_body]
    pub(crate) fn checked_mul(self, other: Decimal) -> (r: Option<Decimal>)
        ensures
            decimal_checked_mul(self@, other@) == opt_view(r),
            (self@.is_zero() || other@.is_zero()) ==> (r is Some && r->0@ == zero_value()),
            (!self@.is_zero() && !other@.is_zero() && self@.mantissa * other@.mantissa
                < mantissa_bound() && self@.scale + other@.scale <= max_scale()) ==> (r is Some
                && r->0@ == exact_product(self@, other@)),
            (r is Some && r->0@.negative) ==> self@.negative != other@.negative,
    {
        let mut x = rust_decimal::Decimal::from_i128_with_scale(self.mantissa as i128, self.scale);
        x.set_sign_negative(self.negative);
        let mut y = rust_decimal::Decimal::from_i128_with_scale(other.mantissa as i128, other.scale);
        y.set_sign_negative(other.negative);
        match x.checked_mul(y) {
            Some(z) => Some(Decimal { negative: z.is_sign_negative(), mantissa: z.mantissa().unsigned_abs(), scale: z.scale() }),
            None => None,
        }
    }

    /// `rust_decimal`'s `checked_div`. The result is named by `decimal_checked_div`. A zero
    /// divisor gives `None`; a zero dividend over a nonzero divisor gives an unsigned zero;
    /// a negative result has operands of unlike signs. When the dividend is a whole
    /// multiple `n` of a nonzero divisor, with `0 < n < 2^64`, the quotient is `n` exactly:
    /// the long division then ends with no remainder, its digits stay well within 96
    /// bits, and no rounding step is reached.
    #[verifier::external_body]
    pub(crate) fn checked_div(self, other: Decimal) -> (r: Option<Decimal>)
        ensures
            decimal_checked_div(self@, other@) == opt_view(r),
            other@.is_zero() ==> (r is None),
            (self@.is_zero() && !other@.is_zero()) ==> (r is Some && r->0@ == zero_value()),
            (r is Some && r->0@.negative) ==> self@.negative != other@.negative,
            forall|n: nat|
                #![trigger whole_multiple(self@, other@, n)]
                (!other@.is_zero() && 0 < n < 0x1_0000_0000_0000_0000 && whole_multiple(self@, other@, n))
                    ==> (r is Some && value_eq(r->0@, from_num(n as int, 0))),
    {
        let mut x = rust_decimal::Decimal::from_i128_with_scale(self.mantissa as i128, self.scale);
        x.set_sign_negative(self.negative);
        let mut y = rust_decimal::Decimal::from_i128_with_scale(other.mantissa as i128, other.scale);
        y.set_sign_negative(other.negative);
        match x.checked_div(y) {
            Some(z) => Some(Decimal { negative: z.is_sign_negative(), mantissa: z.mantissa().unsigned_abs(), scale: z.scale() }),
            None => None,
        }
    }

    /// `rust_decimal`'s `fract`: the number minus its truncation toward zero.
    #[verifier::external_body]
    pub(crate) fn fract(&self) -> (d: Decimal)
        ensures
            value_eq(d@, self@.fract()),
    {
        let mut x = rust_decimal::Decimal::from_i128_with_scale(self.mantissa as i128, self.scale);
        x.set_sign_negative(self.negative);
        let z = x.fract();
        Decimal { negative: z.is_sign_negative(), mantissa: z.mantissa().unsigned_abs(), scale: z.scale() }
    }

    /// `rust_decimal`'s `to_u64`: `None` when the sign flag is set or the truncated
    /// magnitude needs more than 64 bits, else the truncated magnitude.
    #[verifier::external_body]
    pub(crate) fn to_u64(&self) -> (r: Option<u64>)
        ensures
            r == (if self@.negative || self@.trunc_magnitude() > u64::MAX {
                None
            } else {
                Some(self@.trunc_magnitude() as u64)
            }),
    {
        let mut x = rust_decimal::Decimal::from_i128_with_scale(self.mantissa as i128, self.scale);
        x.set_sign_negative(self.negative);
        rust_decimal::prelude::ToPrimitive::to_u64(&x)
    }
}

/// The value of `clamp_spec`, over views.
pub open spec fn clamp_value(x: DecimalValue, min: DecimalValue, max: DecimalValue) -> DecimalValue {
    if value_lt(x, min) {
        min
    } else if value_lt(max, x) {
        max
    } else {
        x
    }
}

/// `x` restricted to `[min, max]`: `min` when below, `max` when above, else `x`.
pub open spec fn clamp_spec(x: Decimal, min: Decimal, max: Decimal) -> Decimal {
    if value_lt(x@, min@) {
        min
    } else if value_lt(max@, x@) {
        max
    } else {
        x
    }
}

/// Decimals compare as numbers, as `rust_decimal`'s do.
impl PartialEq for Decimal {
    fn eq(&self, other: &Decimal) -> (r: bool) {
        self.value_equals(other)
    }
}

impl PartialEqSpecImpl for Decimal {
    open spec fn obeys_eq_spec() -> bool {
        true
    }

    open spec fn eq_spec(&self, other: &Decimal) -> bool {
        value_eq(self@, other@)
    }
}

impl Eq for Decimal {

}

impl PartialOrd for Decimal {
    fn partial_cmp(&self, other: &Decimal) -> (r: Option<Ordering>) {
        if self.lt(other) {
            Some(Ordering::Less)
        } else if other.lt(self) {
            Some(Ordering::Greater)
        } else {
            Some(Ordering::Equal)
        }
    }
}

impl PartialOrdSpecImpl for Decimal {
    open spec fn obeys_partial_cmp_spec() -> bool {
        true
    }

    open spec fn partial_cmp_spec(&self, other: &Decimal) -> Option<Ordering> {
        if value_lt(self@, other@) {
            Some(Ordering::Less)
        } else if value_lt(other@, self@) {
            Some(Ordering::Greater)
        } else {
            Some(Ordering::Equal)
        }
    }
}

} // verus!
