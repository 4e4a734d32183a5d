use vstd::prelude::*;

use rust_decimal::Error as OutsideError;

verus! {

/// Largest magnitude a mantissa may have: 96 bits, all set.
pub const MAX_MANTISSA: i128 = 0xFFFF_FFFF_FFFF_FFFF_FFFF_FFFF;

/// Largest number of fractional digits.
pub const MAX_SCALE: u32 = 28;

/// An exact fixed-point number: `mantissa / 10^scale`.
/// `==` compares mantissa and scale, so `1.0` (mantissa 10, scale 1) differs from `1`.
#[derive(Clone, Copy, Debug, PartialEq, Eq, Structural)]
pub struct Decimal {
    pub mantissa: i128,
    pub scale: u32,
}

/// Why a decimal literal could not be read, or why a decimal could not be formed.
#[derive(Clone, Debug, PartialEq, Eq)]
pub enum DecimalError {
    ErrorString(String),
    ExceedsMaximumPossibleValue,
    LessThanMinimumPossibleValue,
    Underflow,
    ScaleExceedsMaximumPrecision(u32),
    ConversionTo(String),
}

impl Decimal {
    /// The mantissa fits in 96 bits and the scale is at most 28.
    pub open spec fn wf(self) -> bool {
        -MAX_MANTISSA <= self.mantissa <= MAX_MANTISSA && self.scale <= MAX_SCALE
    }

    pub open spec fn is_negative_spec(self) -> bool {
        self.mantissa < 0
    }

    /// The same magnitude with the opposite sign.
    pub open spec fn negated(self) -> Decimal {
        Decimal { mantissa: (-self.mantissa) as i128, scale: self.scale }
    }

    /// Forms `mantissa / 10^scale`, or `None` where that is out of range.
    pub fn new(mantissa: i128, scale: u32) -> (r: Option<Decimal>)
        ensures
            r == (if (Decimal { mantissa, scale }).wf() {
                Some(Decimal { mantissa, scale })
            } else {
                None
            }),
    {
        if -MAX_MANTISSA <= mantissa && mantissa <= MAX_MANTISSA && scale <= MAX_SCALE {
            Some(Decimal { mantissa, scale })
        } else {
            None
        }
    }

    pub fn is_negative(&self) -> (r: bool)
        ensures
            r == self.is_negative_spec(),
    {
        self.mantissa < 0
    }

    /// Sign inversion; exact for every well-formed value.
    pub fn negate(&self) -> (r: Decimal)
        requires
            self.wf(),
        ensures
            r == self.negated(),
            r.wf(),
    {
        Decimal { mantissa: -self.mantissa, scale: self.scale }
    }
}

/// What `rust_decimal` gives for the sum of two values, `None` on overflow.
pub uninterp spec fn decimal_sum(a: Decimal, b: Decimal) -> Option<Decimal>;

/// What `rust_decimal` gives for `a - b`, `None` on overflow.
pub uninterp spec fn decimal_difference(a: Decimal, b: Decimal) -> Option<Decimal>;

/// What `rust_decimal` gives for the product of two values, `None` on overflow.
pub uninterp spec fn decimal_product(a: Decimal, b: Decimal) -> Option<Decimal>;

/// What `rust_decimal` gives for `a / b`, `None` on overflow or a zero divisor.
pub uninterp spec fn decimal_quotient(a: Decimal, b: Decimal) -> Option<Decimal>;

/// What `rust_decimal` reads from a base-10 literal.
pub uninterp spec fn decimal_from_text(s: Seq<char>) -> Result<Decimal, DecimalError>;

/// What `rust_decimal` reads from base-16 digits.
pub uninterp spec fn decimal_from_hex_text(s: Seq<char>) -> Result<Decimal, DecimalError>;

/// Relies on rust_decimal's `Decimal::checked_add`: the sum, or `None` on overflow;
/// its results are `Decimal`s, whose mantissa has 96 bits and scale is at most 28.
/// `from_i128_with_scale` panics out of range, hence the `requires`.
#[verifier::external_body]
pub(crate) fn checked_add(a: Decimal, b: Decimal) -> (r: Option<Decimal>)
    requires
        a.wf(),
        b.wf(),
    ensures
        r == decimal_sum(a, b),
        r matches Some(d) ==> d.wf(),
{
    let x = rust_decimal::Decimal::from_i128_with_scale(a.mantissa, a.scale);
    let y = rust_decimal::Decimal::from_i128_with_scale(b.mantissa, b.scale);
    match x.checked_add(y) {
        Some(d) => Some(Decimal { mantissa: d.mantissa(), scale: d.scale() }),
        None => None,
    }
}

/// Relies on rust_decimal's `Decimal::checked_sub`: the difference, or `None` on overflow.
#[verifier::external_body]
pub(crate) fn checked_sub(a: Decimal, b: Decimal) -> (r: Option<Decimal>)
    requires
        a.wf(),
        b.wf(),
    ensures
        r == decimal_difference(a, b),
        r matches Some(d) ==> d.wf(),
{
    let x = rust_decimal::Decimal::from_i128_with_scale(a.mantissa, a.scale);
    let y = rust_decimal::Decimal::from_i128_with_scale(b.mantissa, b.scale);
    match x.checked_sub(y) {
        Some(d) => Some(Decimal { mantissa: d.mantissa(), scale: d.scale() }),
        None => None,
    }
}

/// Relies on rust_decimal's `Decimal::checked_mul`: the product, or `None` on overflow.
#[verifier::external_body]
pub(crate) fn checked_mul(a: Decimal, b: Decimal) -> (r: Option<Decimal>)
    requires
        a.wf(),
        b.wf(),
    ensures
        r == decimal_product(a, b),
        r matches Some(d) ==> d.wf(),
{
    let x = rust_decimal::Decimal::from_i128_with_scale(a.mantissa, a.scale);
    let y = rust_decimal::Decimal::from_i128_with_scale(b.mantissa, b.scale);
    match x.checked_mul(y) {
        Some(d) => Some(Decimal { mantissa: d.mantissa(), scale: d.scale() }),
        None => None,
    }
}

/// Relies on rust_decimal's `Decimal::checked_div`: the quotient, or `None` on overflow;
/// `div_impl` answers `DivByZero` for a zero divisor, which `checked_div` turns into `None`.
#[verifier::external_body]
pub(crate) fn checked_div(a: Decimal, b: Decimal) -> (r: Option<Decimal>)
    requires
        a.wf(),
        b.wf(),
    ensures
        r == decimal_quotient(a, b),
        b.mantissa == 0 ==> r is None,
        r matches Some(d) ==> d.wf(),
{
    let x = rust_decimal::Decimal::from_i128_with_scale(a.mantissa, a.scale);
    let y = rust_decimal::Decimal::from_i128_with_scale(b.mantissa, b.scale);
    match x.checked_div(y) {
        Some(d) => Some(Decimal { mantissa: d.mantissa(), scale: d.scale() }),
        None => None,
    }
}

/// Relies on rust_decimal's `FromStr for Decimal`: reads a base-10 literal.
#[verifier::external_body]
pub(crate) fn parse_decimal(s: &str) -> (r: Result<Decimal, DecimalError>)
    ensures
        r == decimal_from_text(s@),
        r matches Ok(d) ==> d.wf(),
{
    match <rust_decimal::Decimal as core::str::FromStr>::from_str(s) {
        Ok(d) => Ok(Decimal { mantissa: d.mantissa(), scale: d.scale() }),
        Err(OutsideError::ErrorString(m)) => Err(DecimalError::ErrorString(m)),
        Err(OutsideError::ExceedsMaximumPossibleValue) => Err(DecimalError::ExceedsMaximumPossibleValue),
        Err(OutsideError::LessThanMinimumPossibleValue) => Err(DecimalError::LessThanMinimumPossibleValue),
        Err(OutsideError::Underflow) => Err(DecimalError::Underflow),
        Err(OutsideError::ScaleExceedsMaximumPrecision(n)) => Err(DecimalError::ScaleExceedsMaximumPrecision(n)),
        Err(OutsideError::ConversionTo(m)) => Err(DecimalError::ConversionTo(m)),
    }
}

/// Relies on rust_decimal's `Decimal::from_str_radix` with radix 16: reads base-16 digits.
#[verifier::external_body]
pub(crate) fn parse_hex_decimal(s: &str) -> (r: Result<Decimal, DecimalError>)
    ensures
        r == decimal_from_hex_text(s@),
        r matches Ok(d) ==> d.wf(),
{
    match rust_decimal::Decimal::from_str_radix(s, 16) {
        Ok(d) => Ok(Decimal { mantissa: d.mantissa(), scale: d.scale() }),
        Err(OutsideError::ErrorString(m)) => Err(DecimalError::ErrorString(m)),
        Err(OutsideError::ExceedsMaximumPossibleValue) => Err(DecimalError::ExceedsMaximumPossibleValue),
        Err(OutsideError::LessThanMinimumPossibleValue) => Err(DecimalError::LessThanMinimumPossibleValue),
        Err(OutsideError::Underflow) => Err(DecimalError::Underflow),
        Err(OutsideError::ScaleExceedsMaximumPrecision(n)) => Err(DecimalError::ScaleExceedsMaximumPrecision(n)),
        Err(OutsideError::ConversionTo(m)) => Err(DecimalError::ConversionTo(m)),
    }
}

} // verus!
