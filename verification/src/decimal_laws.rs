//! Laws of the fixed-point conversion.
//!
//! Each law is stated over the mathematical content of a decimal and holds of
//! every value that the conversion accepts.

use crate::decimal::lemma_digits_bound;
use crate::decimal::lemma_digits_split;
use crate::decimal::lemma_digits_zero;
use crate::decimal::lemma_fraction_digits;
use crate::decimal::lemma_pow10_adds;
use crate::decimal::lemma_pow10_positive;
use crate::decimal::lemma_scale_is_pow10;
use crate::decimal::digits_value;
use crate::decimal::pow10;
use crate::decimal::ConvertingError;
use crate::decimal::DecimalView;
use crate::decimal::FRACTION_DIGITS;
use crate::decimal::SCALE;
use vstd::arithmetic::div_mod::lemma_fundamental_div_mod;
use vstd::arithmetic::div_mod::lemma_fundamental_div_mod_converse;
use vstd::arithmetic::div_mod::lemma_mod_bound;
use vstd::prelude::*;

verus! {

/// All digits of a decimal, read as one number, are the integer part shifted
/// past the fractional digits, plus the fractional digits.
pub proof fn lemma_unscaled_parts(d: DecimalView)
    ensures
        d.unscaled() == d.integer_part() * pow10(d.fraction.len()) + digits_value(d.fraction),
{
    let all = d.integer + d.fraction;
    lemma_digits_split(all, d.integer.len() as int);
    assert(all.take(d.integer.len() as int) =~= d.integer);
    assert(all.skip(d.integer.len() as int) =~= d.fraction);
}

/// The fixed-point representation is the decimal times 10^12, rounded down.
///
/// With `k` fractional digits the decimal is `unscaled / 10^k`, so its
/// fixed-point representation is the integer quotient of
/// `unscaled * 10^12` by `10^k`.
pub proof fn lemma_scaled_is_floor(d: DecimalView)
    requires
        d.well_formed(),
    ensures
        d.scaled() == d.unscaled() * (SCALE as nat) / pow10(d.fraction.len()),
{
    let whole = d.integer_part() as int;
    let fraction = digits_value(d.fraction) as int;
    let divisor = pow10(d.fraction.len()) as int;
    let scale = SCALE as int;
    lemma_unscaled_parts(d);
    lemma_scale_is_pow10();
    lemma_pow10_positive(d.fraction.len());
    let quotient = (fraction * scale) / divisor;
    let remainder = (fraction * scale) % divisor;
    lemma_fundamental_div_mod(fraction * scale, divisor);
    lemma_mod_bound(fraction * scale, divisor);
    assert((whole * divisor + fraction) * scale == (whole * scale + quotient) * divisor
        + remainder) by (nonlinear_arith)
        requires
            fraction * scale == divisor * quotient + remainder,
    ;
    lemma_fundamental_div_mod_converse(
        (whole * divisor + fraction) * scale,
        divisor,
        whole * scale + quotient,
        remainder,
    );
}

/// The conversion never rounds up: the fixed-point representation is the
/// largest multiple of 10^-12 that does not exceed the decimal.
pub proof fn lemma_scaled_truncates(d: DecimalView)
    requires
        d.well_formed(),
    ensures
        d.scaled() * pow10(d.fraction.len()) <= d.unscaled() * (SCALE as nat),
        d.unscaled() * (SCALE as nat) < (d.scaled() + 1) * pow10(d.fraction.len()),
        d.fraction.len() >= FRACTION_DIGITS ==> d.scaled_fraction() == digits_value(
            d.fraction.take(FRACTION_DIGITS as int),
        ),
{
    let numerator = (d.unscaled() * (SCALE as nat)) as int;
    let divisor = pow10(d.fraction.len()) as int;
    lemma_scaled_is_floor(d);
    lemma_fraction_digits(d.fraction);
    lemma_pow10_positive(d.fraction.len());
    lemma_fundamental_div_mod(numerator, divisor);
    lemma_mod_bound(numerator, divisor);
    let quotient = numerator / divisor;
    assert(quotient * divisor == divisor * quotient) by (nonlinear_arith);
    assert((quotient + 1) * divisor == divisor * quotient + divisor) by (nonlinear_arith);
}

/// A decimal with at most twelve fractional digits is converted without
/// loss: its fixed-point representation divided by 10^12 is the decimal
/// itself.
///
/// The decimal is `unscaled / 10^k` with `k` fractional digits; the equality
/// of the two fractions is stated by cross-multiplication.
pub proof fn lemma_scaled_is_exact(d: DecimalView)
    requires
        d.well_formed(),
        d.fraction.len() <= FRACTION_DIGITS,
    ensures
        d.scaled() * pow10(d.fraction.len()) == d.unscaled() * (SCALE as nat),
{
    let whole = d.integer_part() as int;
    let fraction = digits_value(d.fraction) as int;
    let divisor = pow10(d.fraction.len()) as int;
    let pad = pow10((FRACTION_DIGITS - d.fraction.len()) as nat) as int;
    let scale = SCALE as int;
    lemma_unscaled_parts(d);
    lemma_scale_is_pow10();
    lemma_fraction_digits(d.fraction);
    lemma_pow10_adds((FRACTION_DIGITS - d.fraction.len()) as nat, d.fraction.len());
    assert((whole * scale + fraction * pad) * divisor == (whole * divisor + fraction) * scale)
        by (nonlinear_arith)
        requires
            scale == pad * divisor,
    ;
}

/// Converting a decimal with at most twelve fractional digits and dividing
/// the result by 10^12 gives the decimal back, unless the sum of the scaled
/// parts exceeds 128 bits and is clamped.
pub proof fn lemma_normalized_round_trip(d: DecimalView, fixed: u128)
    requires
        d.fraction.len() <= FRACTION_DIGITS,
        d.scaled() <= u128::MAX,
        d.normalized() == Ok::<u128, ConvertingError>(fixed),
    ensures
        fixed * pow10(d.fraction.len()) == d.unscaled() * (SCALE as nat),
{
    lemma_scaled_is_exact(d);
}

/// Zero converts to zero, whatever its sign and however it is spelled.
pub proof fn lemma_zero_normalizes(d: DecimalView)
    requires
        d.well_formed(),
        d.is_zero(),
    ensures
        d.normalized() == Ok::<u128, ConvertingError>(0),
{
    lemma_digits_zero(d.integer);
    lemma_digits_zero(d.fraction);
    lemma_pow10_positive(d.fraction.len());
    let divisor = pow10(d.fraction.len()) as int;
    lemma_fundamental_div_mod_converse(0, divisor, 0, 0);
    assert(digits_value(d.fraction) * pow10(FRACTION_DIGITS as nat) == 0) by (nonlinear_arith)
        requires
            digits_value(d.fraction) == 0,
    ;
    assert(d.integer_part() * (SCALE as nat) == 0) by (nonlinear_arith)
        requires
            d.integer_part() == 0,
    ;
}

/// A non-negative decimal whose integer part, scaled by 10^12, exceeds 128
/// bits is refused as too large; one whose scaled integer part fits is
/// always converted.
pub proof fn lemma_overflow_is_on_integer_part(d: DecimalView)
    requires
        d.well_formed(),
        !d.is_negative(),
    ensures
        d.integer_part() * (SCALE as nat) > u128::MAX <==> d.normalized() == Err::<
            u128,
            ConvertingError,
        >(ConvertingError::Overflow),
        d.integer_part() * (SCALE as nat) <= u128::MAX <==> d.normalized() is Ok,
        d.scaled_fraction() < SCALE,
{
    lemma_digits_bound(d.fraction);
    lemma_scale_is_pow10();
    lemma_pow10_positive(d.fraction.len());
    let fraction = digits_value(d.fraction) as int;
    let divisor = pow10(d.fraction.len()) as int;
    let scale = SCALE as int;
    let numerator = fraction * scale;
    lemma_fundamental_div_mod(numerator, divisor);
    lemma_mod_bound(numerator, divisor);
    let quotient = numerator / divisor;
    assert(quotient < scale) by (nonlinear_arith)
        requires
            fraction * scale == divisor * quotient + numerator % divisor,
            0 <= numerator % divisor,
            0 <= fraction < divisor,
            0 < scale,
    ;
}

} // verus!
