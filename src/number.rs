use fixed::types::I20F12;
use vstd::prelude::*;

verus! {

/// One in the fixed-point representation's raw bits.
pub const ONE_BITS: i32 = 4096;

/// A signed fixed-point value with 20 integer bits and 12 fractional bits,
/// held as its raw two's-complement bits: the value is `bits / 4096`.
#[derive(Clone, Copy, Debug, PartialEq, Eq, Structural)]
pub struct Number {
    pub bits: i32,
}

/// Whether an integer fits the raw bits of a `Number`.
pub open spec fn fits(x: int) -> bool {
    i32::MIN <= x <= i32::MAX
}

/// Raw bits of the product of two values: the exact product, rounded down.
pub open spec fn mul_bits(a: int, b: int) -> int {
    (a * b) / (ONE_BITS as int)
}

/// Integer division rounded toward zero.
pub open spec fn div_toward_zero(x: int, y: int) -> int
    recommends
        y != 0,
{
    let q: int = (vstd::math::abs(x) / vstd::math::abs(y)) as int;
    if (x < 0) != (y < 0) {
        -q
    } else {
        q
    }
}

/// Raw bits of the quotient of two values: the exact quotient, rounded toward zero.
pub open spec fn div_bits(a: int, b: int) -> int
    recommends
        b != 0,
{
    div_toward_zero(a * (ONE_BITS as int), b)
}

/// The value that `text` denotes as a decimal fixed-point literal, if it is one
/// and it fits.
pub uninterp spec fn parsed_bits(text: Seq<char>) -> Option<i32>;

/// The decimal text of the value with the given raw bits.
pub uninterp spec fn decimal_text(bits: i32) -> Seq<char>;

/// Relies on `I20F12::checked_add`: the sum of the raw bits, or `None` where it
/// overflows.
#[verifier::external_body]
pub(crate) fn checked_add(a: Number, b: Number) -> (r: Option<Number>)
    ensures
        r == (if fits(a.bits + b.bits) {
            Some(Number { bits: (a.bits + b.bits) as i32 })
        } else {
            None
        }),
{
    I20F12::from_bits(a.bits).checked_add(I20F12::from_bits(b.bits)).map(|v| Number { bits: v.to_bits() })
}

/// Relies on `I20F12::checked_sub`: the difference of the raw bits, or `None`
/// where it overflows.
#[verifier::external_body]
pub(crate) fn checked_sub(a: Number, b: Number) -> (r: Option<Number>)
    ensures
        r == (if fits(a.bits - b.bits) {
            Some(Number { bits: (a.bits - b.bits) as i32 })
        } else {
            None
        }),
{
    I20F12::from_bits(a.bits).checked_sub(I20F12::from_bits(b.bits)).map(|v| Number { bits: v.to_bits() })
}

/// Relies on `I20F12::checked_mul`: the product shifted right by the
/// fractional bits (rounded down), or `None` where it overflows.
#[verifier::external_body]
pub(crate) fn checked_mul(a: Number, b: Number) -> (r: Option<Number>)
    ensures
        r == (if fits(mul_bits(a.bits as int, b.bits as int)) {
            Some(Number { bits: mul_bits(a.bits as int, b.bits as int) as i32 })
        } else {
            None
        }),
{
    I20F12::from_bits(a.bits).checked_mul(I20F12::from_bits(b.bits)).map(|v| Number { bits: v.to_bits() })
}

/// Relies on `I20F12::checked_div`: the dividend shifted left by the
/// fractional bits and divided toward zero, or `None` where the divisor is
/// zero or the quotient overflows.
#[verifier::external_body]
pub(crate) fn checked_div(a: Number, b: Number) -> (r: Option<Number>)
    ensures
        r == (if b.bits != 0 && fits(div_bits(a.bits as int, b.bits as int)) {
            Some(Number { bits: div_bits(a.bits as int, b.bits as int) as i32 })
        } else {
            None
        }),
{
    I20F12::from_bits(a.bits).checked_div(I20F12::from_bits(b.bits)).map(|v| Number { bits: v.to_bits() })
}

/// Relies on `I20F12::from_str`: decimal text to a value, rounded to the
/// nearest; an error becomes `None`.
#[verifier::external_body]
fn parse_decimal(text: &str) -> (r: Option<Number>)
    ensures
        r == (match parsed_bits(text@) {
            Some(b) => Some(Number { bits: b }),
            None => None,
        }),
{
    <I20F12 as std::str::FromStr>::from_str(text).ok().map(|v| Number { bits: v.to_bits() })
}

/// Relies on `I20F12`'s `Display`: the decimal text of a value.
#[verifier::external_body]
fn display_decimal(n: Number) -> (r: String)
    ensures
        r@ == decimal_text(n.bits),
{
    I20F12::from_bits(n.bits).to_string()
}

impl Number {
    /// The number with the given raw bits.
    pub fn from_bits(bits: i32) -> (r: Number)
        ensures
            r.bits == bits,
    {
        Number { bits }
    }

    /// The raw bits of this number.
    pub fn to_bits(&self) -> (r: i32)
        ensures
            r == self.bits,
    {
        self.bits
    }

    /// The number equal to the integer `i`.
    pub fn from_int(i: i32) -> (r: Number)
        requires
            -524288 <= i < 524288,
        ensures
            r.bits == i * (ONE_BITS as int),
    {
        Number { bits: i * ONE_BITS }
    }

    /// The number recognizer: parses a decimal literal (an optional sign,
    /// digits with an optional point, an optional exponent).
    pub fn parse(text: &str) -> (r: Option<Number>)
        ensures
            r == (match parsed_bits(text@) {
                Some(b) => Some(Number { bits: b }),
                None => None,
            }),
    {
        parse_decimal(text)
    }

    /// Decimal rendering of this number.
    pub fn render(&self) -> (r: String)
        ensures
            r@ == decimal_text(self.bits),
    {
        display_decimal(*self)
    }
}

} // verus!
