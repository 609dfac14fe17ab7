//! Money: exact decimal amounts and ISO 4217 currency codes.
//!
//! Reading and writing decimals is left to `rust_decimal`, and the list of
//! currencies to `iso_currency`; this module keeps their results as plain
//! values.

use vstd::prelude::*;

verus! {

/// The largest magnitude of a mantissa: 96 bits.
pub const MAX_MANTISSA: i128 = 79228162514264337593543950335;

/// The largest scale.
pub const MAX_SCALE: u32 = 28;

/// Mantissa and scale of the decimal that `rust_decimal` reads from a text,
/// if it reads one.
pub uninterp spec fn decimal_of_text(text: Seq<char>) -> Option<(i128, u32)>;

/// The text that `rust_decimal` writes for a mantissa and a scale.
pub uninterp spec fn decimal_text_of(mantissa: i128, scale: u32) -> Seq<char>;

/// Whether `iso_currency` knows a text as the code of a currency.
pub uninterp spec fn is_currency_code(text: Seq<char>) -> bool;

/// The name that `iso_currency` has for the currency of a code, if it knows
/// the code.
pub uninterp spec fn currency_name_of(code: Seq<char>) -> Option<Seq<char>>;

/// Whether a mantissa and a scale make a decimal that can be represented.
pub open spec fn decimal_in_range(mantissa: i128, scale: u32) -> bool {
    scale <= MAX_SCALE && -MAX_MANTISSA <= mantissa <= MAX_MANTISSA
}

/// The text of a decimal; empty for a mantissa and scale out of range.
pub open spec fn decimal_text(mantissa: i128, scale: u32) -> Seq<char> {
    if decimal_in_range(mantissa, scale) {
        decimal_text_of(mantissa, scale)
    } else {
        Seq::empty()
    }
}

/// `rust_decimal::Decimal::from_str_exact`, with the decimal handed back as
/// the mantissa and scale that `Decimal::mantissa` and `Decimal::scale` give.
/// The result depends on the text alone, and a decimal that was read is in
/// range: its mantissa has at most 96 bits and its scale is at most 28.
#[verifier::external_body]
fn decimal_from_str_exact(text: &str) -> (r: Option<(i128, u32)>)
    ensures
        r == decimal_of_text(text@),
        match r {
            Some((mantissa, scale)) => decimal_in_range(mantissa, scale),
            None => true,
        },
{
    match rust_decimal::Decimal::from_str_exact(text) {
        Ok(decimal) => Some((decimal.mantissa(), decimal.scale())),
        Err(_) => None,
    }
}

/// `rust_decimal::Decimal::try_from_i128_with_scale` followed by the
/// decimal's `to_string`. The decimal exists exactly for a scale of at most
/// 28 and a mantissa of at most 96 bits; its text depends on the two alone.
#[verifier::external_body]
fn decimal_to_string(mantissa: i128, scale: u32) -> (r: Option<String>)
    ensures
        r is Some <==> decimal_in_range(mantissa, scale),
        r is Some ==> r->0@ == decimal_text_of(mantissa, scale),
{
    match rust_decimal::Decimal::try_from_i128_with_scale(mantissa, scale) {
        Ok(decimal) => Some(decimal.to_string()),
        Err(_) => None,
    }
}

/// `iso_currency::Currency::from_str`: whether the text is the three-letter
/// code of a currency in the crate's table. Codes are matched exactly.
#[verifier::external_body]
fn currency_is_known(code: &str) -> (r: bool)
    ensures
        r == is_currency_code(code@),
        r ==> code@.len() == 3,
{
    code.parse::<iso_currency::Currency>().is_ok()
}

/// `iso_currency::Currency::from_code` followed by `Currency::name`: the name
/// of the currency with the code, in English; `None` for a text that is no
/// known code.
#[verifier::external_body]
fn currency_name(code: &str) -> (r: Option<String>)
    ensures
        match r {
            Some(name) => currency_name_of(code@) == Some(name@),
            None => currency_name_of(code@) is None,
        },
{
    iso_currency::Currency::from_code(code).map(|currency| currency.name().to_string())
}

/// An exact decimal number: `mantissa` divided by ten to the power `scale`.
#[derive(Debug, Clone, Copy, PartialEq, Eq)]
pub struct DecimalValue {
    pub mantissa: i128,
    pub scale: u32,
}

impl DecimalValue {
    /// Whether the value can be represented as a decimal.
    pub open spec fn in_range(self) -> bool {
        decimal_in_range(self.mantissa, self.scale)
    }

    /// The text of the value; empty for a value out of range.
    pub open spec fn text(self) -> Seq<char> {
        decimal_text(self.mantissa, self.scale)
    }

    /// The decimal `num` divided by ten to the power `scale`.
    pub fn new(num: i64, scale: u32) -> (r: Self)
        requires
            scale <= MAX_SCALE,
        ensures
            r.mantissa == num,
            r.scale == scale,
            r.in_range(),
    {
        DecimalValue { mantissa: num as i128, scale }
    }

    /// Reads a decimal from its text, exactly: no rounding takes place.
    pub fn parse(text: &str) -> (r: Option<Self>)
        ensures
            r is Some <==> decimal_of_text(text@) is Some,
            r is Some ==> (r->0.mantissa, r->0.scale) == decimal_of_text(text@)->0,
            r is Some ==> r->0.in_range(),
    {
        match decimal_from_str_exact(text) {
            Some((mantissa, scale)) => Some(DecimalValue { mantissa, scale }),
            None => None,
        }
    }

    /// Writes the decimal as text.
    pub fn to_string(&self) -> (r: String)
        ensures
            r@ == self.text(),
    {
        match decimal_to_string(self.mantissa, self.scale) {
            Some(text) => text,
            None => String::new(),
        }
    }
}

/// The code of a currency, as written.
#[derive(Debug, PartialEq, Eq, Hash)]
pub struct CurrencyCode(pub String);

impl View for CurrencyCode {
    type V = Seq<char>;

    open spec fn view(&self) -> Seq<char> {
        self.0@
    }
}

impl Clone for CurrencyCode {
    fn clone(&self) -> (r: Self)
        ensures
            r == *self,
    {
        CurrencyCode(self.0.clone())
    }
}

impl CurrencyCode {
    /// Reads a currency code; `None` for a text that is no known code.
    pub fn parse(code: &str) -> (r: Option<Self>)
        ensures
            r is Some <==> is_currency_code(code@),
            r is Some ==> r->0@ == code@ && code@.len() == 3,
    {
        if currency_is_known(code) {
            Some(CurrencyCode(code.to_owned()))
        } else {
            None
        }
    }

    /// The three-letter code.
    pub fn code(&self) -> (r: &str)
        ensures
            r@ == self@,
    {
        self.0.as_str()
    }

    /// The name of the currency; empty for a code that is not known.
    pub open spec fn name_text(self) -> Seq<char> {
        match currency_name_of(self@) {
            Some(name) => name,
            None => Seq::empty(),
        }
    }

    /// The name of the currency.
    pub fn name(&self) -> (r: String)
        ensures
            r@ == self.name_text(),
    {
        match currency_name(self.0.as_str()) {
            Some(name) => name,
            None => String::new(),
        }
    }
}

} // verus!
