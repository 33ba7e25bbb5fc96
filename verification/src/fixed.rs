//! Exact fixed-point decimals.
//!
//! A raw register word is turned into an engineering value by an exact
//! decimal scale factor; no binary floating point is involved anywhere,
//! so scaling and the threshold comparison are exact rational
//! arithmetic.

use vstd::prelude::*;
use vstd::arithmetic::mul::lemma_mul_upper_bound;

verus! {

/// Largest number of fractional digits a well-formed `Decimal` may carry.
pub const MAX_EXP: u32 = 6;

/// An exact non-negative decimal number: `mant / 10^exp`.
#[derive(Clone, Copy, PartialEq, Eq, Structural, Debug)]
pub struct Decimal {
    /// The mantissa (the digits of the number with the point removed).
    pub mant: u32,
    /// The number of fractional digits.
    pub exp: u32,
}

/// `10^e` as a mathematical integer.
pub open spec fn pow10(e: nat) -> nat
    decreases e,
{
    if e == 0 {
        1
    } else {
        10 * pow10((e - 1) as nat)
    }
}

/// The values of the powers of ten a well-formed decimal can use.
pub proof fn lemma_pow10_small()
    ensures
        pow10(0) == 1,
        pow10(1) == 10,
        pow10(2) == 100,
        pow10(3) == 1000,
        pow10(4) == 10000,
        pow10(5) == 100000,
        pow10(6) == 1000000,
{
    reveal_with_fuel(pow10, 8);
}

/// `10^e` for the exponents a well-formed decimal may carry.
pub fn pow10_u64(e: u32) -> (r: u64)
    requires
        e <= MAX_EXP,
    ensures
        r == pow10(e as nat),
        1 <= r <= 1000000,
{
    proof {
        lemma_pow10_small();
    }
    match e {
        0 => 1,
        1 => 10,
        2 => 100,
        3 => 1000,
        4 => 10000,
        5 => 100000,
        _ => 1000000,
    }
}

impl Decimal {
    /// The ranges within which the executable comparisons are proved
    /// free of overflow.
    pub open spec fn wf(self) -> bool {
        self.exp <= MAX_EXP
    }

    /// Numerator of the rational this decimal denotes.
    pub open spec fn num(self) -> int {
        self.mant as int
    }

    /// Denominator of the rational this decimal denotes.
    pub open spec fn den(self) -> int {
        pow10(self.exp as nat) as int
    }

    /// `self` and `other` denote the same rational number.
    pub open spec fn same_value(self, other: Decimal) -> bool {
        self.num() * other.den() == other.num() * self.den()
    }

    /// `self` denotes a strictly greater rational number than `other`.
    pub open spec fn gt(self, other: Decimal) -> bool {
        self.num() * other.den() > other.num() * self.den()
    }

    /// Exact strict comparison by cross-multiplication.
    pub fn strictly_greater(&self, other: &Decimal) -> (r: bool)
        requires
            self.wf(),
            other.wf(),
        ensures
            r == self.gt(*other),
    {
        let dl: u64 = pow10_u64(other.exp);
        let dr: u64 = pow10_u64(self.exp);
        proof {
            lemma_mul_upper_bound(self.mant as int, u32::MAX as int, dl as int, 1000000int);
            lemma_mul_upper_bound(other.mant as int, u32::MAX as int, dr as int, 1000000int);
        }
        let lhs: u64 = (self.mant as u64) * dl;
        let rhs: u64 = (other.mant as u64) * dr;
        lhs > rhs
    }
}

/// `scaled` is exactly the rational product of the raw word and the
/// scale factor.
pub open spec fn is_scaled(scaled: Decimal, raw: u16, scale: Decimal) -> bool {
    &&& scaled.mant == raw * scale.mant
    &&& scaled.exp == scale.exp
}

/// Derive the engineering value of a raw register word: the mantissas
/// multiply, the exponent carries over, so the result is exact.
pub fn scale_value(raw: u16, scale: &Decimal) -> (r: Decimal)
    requires
        scale.wf(),
        scale.mant <= u16::MAX,
    ensures
        is_scaled(r, raw, *scale),
        r.wf(),
{
    proof {
        lemma_mul_upper_bound(raw as int, u16::MAX as int, scale.mant as int, u16::MAX as int);
    }
    Decimal { mant: (raw as u32) * scale.mant, exp: scale.exp }
}

/// Derive the engineering value for any scale factor at all: the
/// exact product, or `None` when the product's mantissa does not fit
/// the 32-bit representation — the one machine limit.
pub fn scale_value_checked(raw: u16, scale: &Decimal) -> (r: Option<Decimal>)
    ensures
        match r {
            Some(d) => is_scaled(d, raw, *scale) && (scale.wf() ==> d.wf()),
            None => raw * scale.mant > u32::MAX,
        },
{
    proof {
        lemma_mul_upper_bound(raw as int, u16::MAX as int, scale.mant as int, u32::MAX as int);
    }
    let wide: u64 = (raw as u64) * (scale.mant as u64);
    if wide > u32::MAX as u64 {
        None
    } else {
        Some(Decimal { mant: wide as u32, exp: scale.exp })
    }
}

/// Law: scaling is exact. A scaled reading denotes precisely
/// `raw * scale` as a rational number: `scaled / 10^scaled.exp ==
/// raw * (scale.mant / 10^scale.exp)`, stated cross-multiplied.
pub proof fn lemma_scale_exact(scaled: Decimal, raw: u16, scale: Decimal)
    requires
        is_scaled(scaled, raw, scale),
    ensures
        scaled.num() * scale.den() == (raw as int) * scale.num() * scaled.den(),
{
}

/// Law: the alert comparison is strict. A value exactly equal to the
/// threshold does not compare greater, whatever representations the
/// two sides use.
pub proof fn lemma_equal_is_not_greater(value: Decimal, threshold: Decimal)
    requires
        value.same_value(threshold),
    ensures
        !value.gt(threshold),
{
}

} // verus!
