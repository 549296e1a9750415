//! Exact decimal amounts.
//!
//! A [`Decimal`] is a signed 96-bit mantissa with a scale of at most 28
//! fractional digits, the representation of `rust_decimal::Decimal`. The
//! arithmetic itself is done by `rust_decimal`; the functions of this module
//! that call it are the only ones whose contracts are taken on trust.

use vstd::prelude::*;

verus! {

/// Largest magnitude of a mantissa: `2^96 - 1`.
pub const MAX_MANTISSA: i128 = 79_228_162_514_264_337_593_543_950_335;

/// Largest number of fractional digits.
pub const MAX_SCALE: u32 = 28;

/// The mathematical content of a [`Decimal`]: the number `mantissa / 10^scale`.
pub struct DecimalValue {
    pub mantissa: int,
    pub scale: nat,
}

/// Whether a value can be held by a [`Decimal`].
pub open spec fn representable(v: DecimalValue) -> bool {
    -MAX_MANTISSA <= v.mantissa <= MAX_MANTISSA && v.scale <= MAX_SCALE
}

/// `10^n`.
pub open spec fn pow10(n: nat) -> int
    decreases n,
{
    if n == 0 {
        1
    } else {
        10 * pow10((n - 1) as nat)
    }
}

/// Rounds the fraction `n / d` to the nearest integer, a half to the even
/// neighbour. Meant for `n >= 0` and `d > 0`.
pub open spec fn round_half_even(n: int, d: int) -> int {
    let q = n / d;
    let r = n % d;
    if 2 * r > d || (2 * r == d && q % 2 == 1) {
        q + 1
    } else {
        q
    }
}

/// A value rounded to `dp` fractional digits, halves to even. A value that
/// has no more than `dp` fractional digits is left as it is.
pub open spec fn rounded(v: DecimalValue, dp: nat) -> DecimalValue {
    if v.scale <= dp {
        v
    } else {
        let p = pow10((v.scale - dp) as nat);
        if v.mantissa < 0 {
            DecimalValue { mantissa: -round_half_even(-v.mantissa, p), scale: dp }
        } else {
            DecimalValue { mantissa: round_half_even(v.mantissa, p), scale: dp }
        }
    }
}

/// A value in tenths, after rounding to one fractional digit.
pub open spec fn tenths(v: DecimalValue) -> int {
    let r = rounded(v, 1);
    if r.scale == 0 {
        r.mantissa * 10
    } else {
        r.mantissa
    }
}

/// The result of `rust_decimal`'s checked addition of `a_mantissa / 10^a_scale`
/// and `b_mantissa / 10^b_scale`, as mantissa and scale; `None` on overflow.
pub uninterp spec fn decimal_sum(a_mantissa: int, a_scale: nat, b_mantissa: int, b_scale: nat) -> Option<(int, nat)>;

/// The result of `rust_decimal`'s checked subtraction of `b_mantissa / 10^b_scale`
/// from `a_mantissa / 10^a_scale`; `None` on overflow.
pub uninterp spec fn decimal_difference(a_mantissa: int, a_scale: nat, b_mantissa: int, b_scale: nat) -> Option<(int, nat)>;

/// The result of `rust_decimal`'s checked multiplication; `None` on overflow.
pub uninterp spec fn decimal_product(a_mantissa: int, a_scale: nat, b_mantissa: int, b_scale: nat) -> Option<(int, nat)>;

/// The result of `rust_decimal`'s checked division of `a_mantissa / 10^a_scale`
/// by `b_mantissa / 10^b_scale`; `None` on overflow or a zero divisor.
pub uninterp spec fn decimal_quotient(a_mantissa: int, a_scale: nat, b_mantissa: int, b_scale: nat) -> Option<(int, nat)>;

/// The number that `rust_decimal` reads out of a string, as mantissa and
/// scale; `None` where it reads none.
pub uninterp spec fn decimal_written(text: Seq<char>) -> Option<(int, nat)>;

/// A named result as a value.
pub open spec fn as_value(r: Option<(int, nat)>) -> Option<DecimalValue> {
    match r {
        Some((mantissa, scale)) => Some(DecimalValue { mantissa, scale }),
        None => None,
    }
}

/// The content of an optional decimal.
pub open spec fn value_of(r: Option<Decimal>) -> Option<DecimalValue> {
    match r {
        Some(d) => Some(d@),
        None => None,
    }
}

/// The sum of two values as decimal arithmetic computes it.
pub open spec fn sum(a: DecimalValue, b: DecimalValue) -> Option<DecimalValue> {
    as_value(decimal_sum(a.mantissa, a.scale, b.mantissa, b.scale))
}

/// The difference `a - b` as decimal arithmetic computes it.
pub open spec fn difference(a: DecimalValue, b: DecimalValue) -> Option<DecimalValue> {
    as_value(decimal_difference(a.mantissa, a.scale, b.mantissa, b.scale))
}

/// The product of two values as decimal arithmetic computes it.
pub open spec fn product(a: DecimalValue, b: DecimalValue) -> Option<DecimalValue> {
    as_value(decimal_product(a.mantissa, a.scale, b.mantissa, b.scale))
}

/// The quotient `a / b` as decimal arithmetic computes it.
pub open spec fn quotient(a: DecimalValue, b: DecimalValue) -> Option<DecimalValue> {
    as_value(decimal_quotient(a.mantissa, a.scale, b.mantissa, b.scale))
}

/// An exact decimal number.
///
/// Two decimals are equal when mantissa and scale agree, so `1.0` and `1.00`
/// are different values of the same number.
#[derive(Clone, Copy, Debug, PartialEq, Eq, Structural)]
pub struct Decimal {
    mantissa: i128,
    scale: u32,
}

impl View for Decimal {
    type V = DecimalValue;

    closed spec fn view(&self) -> DecimalValue {
        DecimalValue { mantissa: self.mantissa as int, scale: self.scale as nat }
    }
}

impl Decimal {
    #[verifier::type_invariant]
    spec fn in_range(self) -> bool {
        -MAX_MANTISSA <= self.mantissa <= MAX_MANTISSA && self.scale <= MAX_SCALE
    }

    /// The decimal `num / 10^scale`.
    pub fn new(num: i64, scale: u32) -> (d: Decimal)
        requires
            scale <= MAX_SCALE,
        ensures
            d@ == (DecimalValue { mantissa: num as int, scale: scale as nat }),
    {
        Decimal { mantissa: num as i128, scale }
    }

    /// The decimal `num / 10^scale`, if it can be represented.
    pub fn try_from_i128_with_scale(num: i128, scale: u32) -> (r: Option<Decimal>)
        ensures
            representable(DecimalValue { mantissa: num as int, scale: scale as nat }) ==> r.is_some()
                && r.unwrap()@ == (DecimalValue { mantissa: num as int, scale: scale as nat }),
            !representable(DecimalValue { mantissa: num as int, scale: scale as nat }) ==> r.is_none(),
    {
        if scale <= MAX_SCALE && -MAX_MANTISSA <= num && num <= MAX_MANTISSA {
            Some(Decimal { mantissa: num, scale })
        } else {
            None
        }
    }

    /// The mantissa.
    pub fn mantissa(&self) -> (m: i128)
        ensures
            m == self@.mantissa,
            representable(self@),
    {
        proof {
            use_type_invariant(self);
        }
        self.mantissa
    }

    /// The number of fractional digits.
    pub fn scale(&self) -> (s: u32)
        ensures
            s == self@.scale,
            representable(self@),
    {
        proof {
            use_type_invariant(self);
        }
        self.scale
    }

    /// Whether the number is zero.
    pub fn is_zero(&self) -> (z: bool)
        ensures
            z == (self@.mantissa == 0),
    {
        self.mantissa == 0
    }

    /// Whether the number is greater than zero.
    pub fn is_positive(&self) -> (p: bool)
        ensures
            p == (self@.mantissa > 0),
    {
        self.mantissa > 0
    }

    /// The number rounded to `dp` fractional digits, halves to even.
    pub fn round_dp(&self, dp: u32) -> (r: Decimal)
        ensures
            r@ == rounded(self@, dp as nat),
    {
        self.round(dp)
    }

    /// The digits of the number taken as millionths: the same mantissa at
    /// scale 6.
    pub fn millionths(&self) -> (d: Decimal)
        ensures
            d@ == (DecimalValue { mantissa: self@.mantissa, scale: 6 }),
    {
        proof {
            use_type_invariant(self);
        }
        Decimal { mantissa: self.mantissa, scale: 6 }
    }

    /// The number in tenths, after rounding to one fractional digit.
    pub fn tenths(&self) -> (t: i128)
        ensures
            t == tenths(self@),
    {
        let r = self.round(1);
        proof {
            use_type_invariant(&r);
        }
        if r.scale == 0 {
            r.mantissa * 10
        } else {
            r.mantissa
        }
    }

    /// `Decimal::checked_add` of `rust_decimal`. The result is the one that
    /// `decimal_sum` names. Trusted beyond that: where both scales agree and
    /// the sum of the mantissas fits in 96 bits, the result has that sum as
    /// its mantissa and the common scale. Every `Decimal` is in the range
    /// that `from_i128_with_scale` accepts.
    #[verifier::external_body]
    pub(crate) fn checked_add(self, other: Decimal) -> (r: Option<Decimal>)
        ensures
            value_of(r) == as_value(
                decimal_sum(self@.mantissa, self@.scale, other@.mantissa, other@.scale),
            ),
            self@.scale == other@.scale && -MAX_MANTISSA <= self@.mantissa + other@.mantissa
                <= MAX_MANTISSA ==> value_of(r) == Some(
                DecimalValue { mantissa: self@.mantissa + other@.mantissa, scale: self@.scale },
            ),
    {
        let a = rust_decimal::Decimal::from_i128_with_scale(self.mantissa, self.scale);
        let b = rust_decimal::Decimal::from_i128_with_scale(other.mantissa, other.scale);
        match a.checked_add(b) {
            Some(c) => Some(Decimal { mantissa: c.mantissa(), scale: c.scale() }),
            None => None,
        }
    }

    /// `Decimal::checked_sub` of `rust_decimal`. The result is the one that
    /// `decimal_difference` names. Trusted beyond that: where both scales
    /// agree and the difference of the mantissas fits in 96 bits, the result
    /// has that difference as its mantissa and the common scale.
    #[verifier::external_body]
    pub(crate) fn checked_sub(self, other: Decimal) -> (r: Option<Decimal>)
        ensures
            value_of(r) == as_value(
                decimal_difference(self@.mantissa, self@.scale, other@.mantissa, other@.scale),
            ),
            self@.scale == other@.scale && -MAX_MANTISSA <= self@.mantissa - other@.mantissa
                <= MAX_MANTISSA ==> value_of(r) == Some(
                DecimalValue { mantissa: self@.mantissa - other@.mantissa, scale: self@.scale },
            ),
    {
        let a = rust_decimal::Decimal::from_i128_with_scale(self.mantissa, self.scale);
        let b = rust_decimal::Decimal::from_i128_with_scale(other.mantissa, other.scale);
        match a.checked_sub(b) {
            Some(c) => Some(Decimal { mantissa: c.mantissa(), scale: c.scale() }),
            None => None,
        }
    }

    /// `Decimal::checked_mul` of `rust_decimal`. The result is the one that
    /// `decimal_product` names.
    #[verifier::external_body]
    pub(crate) fn checked_mul(self, other: Decimal) -> (r: Option<Decimal>)
        ensures
            value_of(r) == as_value(
                decimal_product(self@.mantissa, self@.scale, other@.mantissa, other@.scale),
            ),
    {
        let a = rust_decimal::Decimal::from_i128_with_scale(self.mantissa, self.scale);
        let b = rust_decimal::Decimal::from_i128_with_scale(other.mantissa, other.scale);
        match a.checked_mul(b) {
            Some(c) => Some(Decimal { mantissa: c.mantissa(), scale: c.scale() }),
            None => None,
        }
    }

    /// `Decimal::checked_div` of `rust_decimal`. The result is the one that
    /// `decimal_quotient` names.
    #[verifier::external_body]
    pub(crate) fn checked_div(self, other: Decimal) -> (r: Option<Decimal>)
        ensures
            value_of(r) == as_value(
                decimal_quotient(self@.mantissa, self@.scale, other@.mantissa, other@.scale),
            ),
    {
        let a = rust_decimal::Decimal::from_i128_with_scale(self.mantissa, self.scale);
        let b = rust_decimal::Decimal::from_i128_with_scale(other.mantissa, other.scale);
        match a.checked_div(b) {
            Some(c) => Some(Decimal { mantissa: c.mantissa(), scale: c.scale() }),
            None => None,
        }
    }

    /// `Decimal::from_str` of `rust_decimal`. The result is the one that
    /// `decimal_written` names.
    #[verifier::external_body]
    pub(crate) fn from_str(text: &str) -> (r: Option<Decimal>)
        ensures
            value_of(r) == as_value(decimal_written(text@)),
    {
        match <rust_decimal::Decimal as std::str::FromStr>::from_str(text) {
            Ok(c) => Some(Decimal { mantissa: c.mantissa(), scale: c.scale() }),
            Err(_) => None,
        }
    }

    /// `Decimal::round_dp` of `rust_decimal`: the number with at most `dp`
    /// fractional digits that is nearest, a half going to the even
    /// neighbour; a number with no more than `dp` digits comes back as it is.
    #[verifier::external_body]
    fn round(self, dp: u32) -> (r: Decimal)
        ensures
            r@ == rounded(self@, dp as nat),
    {
        let a = rust_decimal::Decimal::from_i128_with_scale(self.mantissa, self.scale);
        let c = a.round_dp(dp);
        Decimal { mantissa: c.mantissa(), scale: c.scale() }
    }
}

} // verus!
