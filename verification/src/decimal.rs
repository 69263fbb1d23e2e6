//! Decimal quantities and their conversion to fixed-point integers.
//!
//! A price or a volume arrives as a decimal number of arbitrary precision. It
//! is published as an unsigned 128-bit integer that counts units of
//! 10^-12: the integer part scaled by 10^12 plus the first twelve fractional
//! digits. Digits beyond the twelfth are dropped, never rounded.

use vstd::arithmetic::div_mod::lemma_div_by_multiple;
use vstd::arithmetic::div_mod::lemma_fundamental_div_mod_converse;
use vstd::prelude::*;

verus! {

/// Number of fractional decimal digits kept by the fixed-point representation.
pub const FRACTION_DIGITS: usize = 12;

/// Scaling factor of the fixed-point representation: ten to the power of
/// [`FRACTION_DIGITS`].
pub const SCALE: u128 = 1_000_000_000_000;

/// Why a decimal could not be converted to its fixed-point representation.
#[derive(Debug, Clone, Copy, PartialEq, Eq, Structural)]
pub enum ConvertingError {
    /// The input is negative, or is no decimal number at all.
    InvalidInput,
    /// The integer part, scaled by 10^12, does not fit in 128 bits.
    Overflow,
}

impl ConvertingError {
    /// A short description of the error for log output.
    pub fn description(&self) -> (text: &'static str)
        ensures
            text@ == match *self {
                ConvertingError::InvalidInput => "Decimal given is not a valid non-negative number"@,
                ConvertingError::Overflow => "Decimal given is too large"@,
            },
    {
        match self {
            ConvertingError::InvalidInput => "Decimal given is not a valid non-negative number",
            ConvertingError::Overflow => "Decimal given is too large",
        }
    }
}

/// A decimal number as its sign and its digits on both sides of the point.
///
/// Each entry of `integer` and `fraction` is one decimal digit, most
/// significant first. The fields are public and unchecked: a value may
/// come from any source, and an entry above 9 makes it malformed.
#[derive(Debug)]
pub struct Decimal {
    /// Whether a minus sign precedes the digits.
    pub negative: bool,
    /// The digits before the decimal point.
    pub integer: Vec<u8>,
    /// The digits after the decimal point.
    pub fraction: Vec<u8>,
}

/// The mathematical content of a [`Decimal`].
pub struct DecimalView {
    pub negative: bool,
    pub integer: Seq<u8>,
    pub fraction: Seq<u8>,
}

impl View for Decimal {
    type V = DecimalView;

    open spec fn view(&self) -> DecimalView {
        DecimalView { negative: self.negative, integer: self.integer@, fraction: self.fraction@ }
    }
}

impl Clone for Decimal {
    fn clone(&self) -> (copy: Self)
        ensures
            copy@ == self@,
    {
        let integer = self.integer.clone();
        let fraction = self.fraction.clone();
        assert(integer@ =~= self.integer@);
        assert(fraction@ =~= self.fraction@);
        Decimal { negative: self.negative, integer, fraction }
    }
}

impl Default for Decimal {
    /// The decimal zero, spelled `0`.
    fn default() -> (zero: Self)
        ensures
            zero@ == (DecimalView { negative: false, integer: seq![0u8], fraction: Seq::empty() }),
    {
        let mut integer: Vec<u8> = Vec::new();
        integer.push(0);
        let zero = Decimal { negative: false, integer, fraction: Vec::new() };
        assert(zero.integer@ =~= seq![0u8]);
        zero
    }
}

/// Ten to the power of `n`.
pub open spec fn pow10(n: nat) -> nat
    decreases n,
{
    if n == 0 {
        1
    } else {
        10 * pow10((n - 1) as nat)
    }
}

/// Every entry is a decimal digit.
pub open spec fn digits_valid(digits: Seq<u8>) -> bool {
    forall|i: int| 0 <= i < digits.len() ==> digits[i] <= 9
}

/// Every entry is the digit zero.
pub open spec fn digits_zero(digits: Seq<u8>) -> bool {
    forall|i: int| 0 <= i < digits.len() ==> digits[i] == 0
}

/// The number that `digits` spell in base ten, most significant digit first.
pub open spec fn digits_value(digits: Seq<u8>) -> nat
    decreases digits.len(),
{
    if digits.len() == 0 {
        0
    } else {
        10 * digits_value(digits.drop_last()) + digits.last() as nat
    }
}

impl DecimalView {
    /// Both digit sequences hold decimal digits only.
    pub open spec fn well_formed(self) -> bool {
        digits_valid(self.integer) && digits_valid(self.fraction)
    }

    /// The number is zero, whatever its sign.
    pub open spec fn is_zero(self) -> bool {
        digits_zero(self.integer) && digits_zero(self.fraction)
    }

    /// The number is below zero.
    pub open spec fn is_negative(self) -> bool {
        self.negative && !self.is_zero()
    }

    /// The part before the decimal point.
    pub open spec fn integer_part(self) -> nat {
        digits_value(self.integer)
    }

    /// All digits read as one number: the magnitude times ten to the number
    /// of fractional digits.
    pub open spec fn unscaled(self) -> nat {
        digits_value(self.integer + self.fraction)
    }

    /// The part after the decimal point in units of 10^-12, rounded down.
    pub open spec fn scaled_fraction(self) -> nat {
        digits_value(self.fraction) * pow10(FRACTION_DIGITS as nat) / pow10(self.fraction.len())
    }

    /// The fixed-point representation before it is clamped to 128 bits.
    pub open spec fn scaled(self) -> nat {
        self.integer_part() * SCALE as nat + self.scaled_fraction()
    }

    /// What the conversion to fixed point yields.
    ///
    /// The scaled integer part must fit in 128 bits; adding the fraction
    /// saturates.
    pub open spec fn normalized(self) -> Result<u128, ConvertingError> {
        if !self.well_formed() || self.is_negative() {
            Err(ConvertingError::InvalidInput)
        } else if self.integer_part() * SCALE as nat > u128::MAX {
            Err(ConvertingError::Overflow)
        } else if self.scaled() > u128::MAX {
            Ok(u128::MAX)
        } else {
            Ok(self.scaled() as u128)
        }
    }
}

/// Powers of ten are positive.
pub proof fn lemma_pow10_positive(n: nat)
    ensures
        pow10(n) > 0,
    decreases n,
{
    if n > 0 {
        lemma_pow10_positive((n - 1) as nat);
    }
}

/// Powers of ten multiply by adding exponents.
pub proof fn lemma_pow10_adds(a: nat, b: nat)
    ensures
        pow10(a + b) == pow10(a) * pow10(b),
    decreases a,
{
    if a == 0 {
        assert(pow10(0) == 1);
        assert(1 * pow10(b) == pow10(b));
    } else {
        lemma_pow10_adds((a - 1) as nat, b);
        let p = pow10((a - 1) as nat);
        let q = pow10(b);
        assert(pow10(a + b) == 10 * pow10((a - 1 + b) as nat));
        assert(10 * (p * q) == (10 * p) * q) by (nonlinear_arith);
    }
}

/// Powers of ten grow with the exponent.
pub proof fn lemma_pow10_monotonic(a: nat, b: nat)
    requires
        a <= b,
    ensures
        pow10(a) <= pow10(b),
    decreases b,
{
    if a < b {
        lemma_pow10_monotonic(a, (b - 1) as nat);
    }
}

/// The scaling factor is the twelfth power of ten.
pub proof fn lemma_scale_is_pow10()
    ensures
        pow10(FRACTION_DIGITS as nat) == SCALE,
{
    reveal_with_fuel(pow10, 13);
}

/// A number of `n` digits is below the `n`-th power of ten.
pub proof fn lemma_digits_bound(digits: Seq<u8>)
    requires
        digits_valid(digits),
    ensures
        digits_value(digits) < pow10(digits.len()),
    decreases digits.len(),
{
    if digits.len() > 0 {
        lemma_digits_bound(digits.drop_last());
    }
}

/// Reading one more digit multiplies by ten and adds the digit.
pub proof fn lemma_digits_step(digits: Seq<u8>, i: int)
    requires
        0 <= i < digits.len(),
    ensures
        digits_value(digits.take(i + 1)) == 10 * digits_value(digits.take(i)) + digits[i] as nat,
{
    assert(digits.take(i + 1).drop_last() =~= digits.take(i));
}

/// A digit sequence splits at any position into a shifted head and a tail.
pub proof fn lemma_digits_split(digits: Seq<u8>, at: int)
    requires
        0 <= at <= digits.len(),
    ensures
        digits_value(digits) == digits_value(digits.take(at)) * pow10((digits.len() - at) as nat)
            + digits_value(digits.skip(at)),
    decreases digits.len(),
{
    if at == digits.len() {
        assert(digits.take(at) =~= digits);
        assert(digits.skip(at) =~= Seq::<u8>::empty());
        assert(pow10(0) == 1);
        assert(digits_value(digits) * 1 == digits_value(digits));
    } else {
        let front = digits.drop_last();
        lemma_digits_split(front, at);
        assert(front.take(at) =~= digits.take(at));
        assert(front.skip(at) =~= digits.skip(at).drop_last());
        assert(digits.skip(at).last() == digits.last());
        let head = digits_value(digits.take(at));
        let power = pow10((front.len() - at) as nat);
        assert(pow10((digits.len() - at) as nat) == 10 * power);
        assert(10 * (head * power) == head * (10 * power)) by (nonlinear_arith);
    }
}

/// The value of a prefix never exceeds the value of the whole.
pub proof fn lemma_digits_prefix_le(digits: Seq<u8>, at: int)
    requires
        0 <= at <= digits.len(),
    ensures
        digits_value(digits.take(at)) <= digits_value(digits),
{
    lemma_digits_split(digits, at);
    let head = digits_value(digits.take(at));
    let power = pow10((digits.len() - at) as nat);
    lemma_pow10_positive((digits.len() - at) as nat);
    assert(head <= head * power) by (nonlinear_arith)
        requires
            power >= 1,
    ;
}

/// A sequence of digits spells zero exactly when all its digits are zero.
pub proof fn lemma_digits_zero(digits: Seq<u8>)
    ensures
        digits_zero(digits) <==> digits_value(digits) == 0,
    decreases digits.len(),
{
    if digits.len() > 0 {
        let front = digits.drop_last();
        lemma_digits_zero(front);
        if digits_zero(digits) {
            assert forall|i: int| 0 <= i < front.len() implies front[i] == 0 by {
                assert(front[i] == digits[i]);
            }
        }
        if digits_value(digits) == 0 {
            assert forall|i: int| 0 <= i < digits.len() implies digits[i] == 0 by {
                if i < front.len() {
                    assert(front[i] == digits[i]);
                }
            }
        }
    }
}

/// Checks that every entry is a decimal digit.
fn all_digits(digits: &Vec<u8>) -> (ok: bool)
    ensures
        ok == digits_valid(digits@),
{
    let mut i: usize = 0;
    while i < digits.len()
        invariant
            i <= digits.len(),
            forall|j: int| 0 <= j < i ==> digits@[j] <= 9,
        decreases digits.len() - i,
    {
        if digits[i] > 9 {
            return false;
        }
        i += 1;
    }
    true
}

/// Checks that every entry is the digit zero.
fn all_zero(digits: &Vec<u8>) -> (zero: bool)
    ensures
        zero == digits_zero(digits@),
{
    let mut i: usize = 0;
    while i < digits.len()
        invariant
            i <= digits.len(),
            forall|j: int| 0 <= j < i ==> digits@[j] == 0,
        decreases digits.len() - i,
    {
        if digits[i] != 0 {
            return false;
        }
        i += 1;
    }
    true
}

/// Reads the digits as a number, or returns `None` when it exceeds 128 bits.
fn integer_value(digits: &Vec<u8>) -> (value: Option<u128>)
    requires
        digits_valid(digits@),
    ensures
        match value {
            Some(v) => v == digits_value(digits@),
            None => digits_value(digits@) > u128::MAX,
        },
{
    let mut acc: u128 = 0;
    let mut i: usize = 0;
    assert(digits@.take(0) =~= Seq::<u8>::empty());
    while i < digits.len()
        invariant
            i <= digits.len(),
            acc == digits_value(digits@.take(i as int)),
        decreases digits.len() - i,
    {
        proof {
            lemma_digits_step(digits@, i as int);
            lemma_digits_prefix_le(digits@, i + 1);
        }
        let shifted = match acc.checked_mul(10) {
            Some(s) => s,
            None => {
                return None;
            },
        };
        acc = match shifted.checked_add(digits[i] as u128) {
            Some(s) => s,
            None => {
                return None;
            },
        };
        i += 1;
    }
    assert(digits@.take(i as int) =~= digits@);
    Some(acc)
}

/// Reads the first twelve digits after the point, padded with zeros, as a
/// number.
fn fraction_value(digits: &Vec<u8>) -> (value: u128)
    requires
        digits_valid(digits@),
    ensures
        value == digits_value(digits@) * pow10(FRACTION_DIGITS as nat) / pow10(digits@.len()),
        value < SCALE,
{
    let kept: usize = if digits.len() < FRACTION_DIGITS {
        digits.len()
    } else {
        FRACTION_DIGITS
    };
    let mut acc: u128 = 0;
    let mut i: usize = 0;
    proof {
        lemma_scale_is_pow10();
        assert(digits@.take(0) =~= Seq::<u8>::empty());
    }
    while i < kept
        invariant
            i <= kept <= digits.len(),
            kept <= FRACTION_DIGITS,
            digits_valid(digits@),
            acc == digits_value(digits@.take(i as int)),
            acc < pow10(i as nat),
            pow10(FRACTION_DIGITS as nat) == SCALE,
        decreases kept - i,
    {
        proof {
            lemma_digits_step(digits@, i as int);
            lemma_pow10_monotonic((i + 1) as nat, FRACTION_DIGITS as nat);
        }
        acc = acc * 10 + digits[i] as u128;
        i += 1;
    }
    let mut filled: usize = kept;
    proof {
        assert(pow10(0) == 1);
        assert(acc * 1 == acc);
    }
    while filled < FRACTION_DIGITS
        invariant
            kept <= filled <= FRACTION_DIGITS,
            acc == digits_value(digits@.take(kept as int)) * pow10((filled - kept) as nat),
            acc < pow10(filled as nat),
            pow10(FRACTION_DIGITS as nat) == SCALE,
        decreases FRACTION_DIGITS - filled,
    {
        proof {
            lemma_pow10_monotonic((filled + 1) as nat, FRACTION_DIGITS as nat);
            let head = digits_value(digits@.take(kept as int));
            let power = pow10((filled - kept) as nat);
            assert(10 * (head * power) == head * (10 * power)) by (nonlinear_arith);
        }
        acc = acc * 10;
        filled += 1;
    }
    proof {
        lemma_fraction_digits(digits@);
        if digits.len() <= FRACTION_DIGITS {
            assert(digits@.take(kept as int) =~= digits@);
        } else {
            assert(pow10(0) == 1);
            assert(acc * 1 == acc);
        }
    }
    acc
}

/// The scaled fraction is spelled by the first twelve fractional digits,
/// padded with zeros on the right when there are fewer.
///
/// A fraction of twelve digits or more is cut after the twelfth digit,
/// whatever follows; a shorter one is shifted left to twelve digits.
pub proof fn lemma_fraction_digits(fraction: Seq<u8>)
    requires
        digits_valid(fraction),
    ensures
        fraction.len() <= FRACTION_DIGITS ==> digits_value(fraction) * pow10(
            FRACTION_DIGITS as nat,
        ) / pow10(fraction.len()) == digits_value(fraction) * pow10(
            (FRACTION_DIGITS - fraction.len()) as nat,
        ),
        fraction.len() >= FRACTION_DIGITS ==> digits_value(fraction) * pow10(
            FRACTION_DIGITS as nat,
        ) / pow10(fraction.len()) == digits_value(fraction.take(FRACTION_DIGITS as int)),
{
    let value = digits_value(fraction) as int;
    let len = fraction.len();
    let scale = pow10(FRACTION_DIGITS as nat) as int;
    let divisor = pow10(len) as int;
    lemma_pow10_positive(len);
    lemma_pow10_positive(FRACTION_DIGITS as nat);
    if len <= FRACTION_DIGITS {
        let pad = pow10((FRACTION_DIGITS - len) as nat) as int;
        lemma_pow10_adds((FRACTION_DIGITS - len) as nat, len);
        assert(value * scale == (value * pad) * divisor) by (nonlinear_arith)
            requires
                scale == pad * divisor,
        ;
        assert(0 <= value * pad) by (nonlinear_arith)
            requires
                0 <= value,
                0 <= pad,
        ;
        lemma_div_by_multiple(value * pad, divisor);
    }
    if len >= FRACTION_DIGITS {
        let rest_len = (len - FRACTION_DIGITS) as nat;
        let head = digits_value(fraction.take(FRACTION_DIGITS as int)) as int;
        let tail = digits_value(fraction.skip(FRACTION_DIGITS as int)) as int;
        let rest = pow10(rest_len) as int;
        lemma_digits_split(fraction, FRACTION_DIGITS as int);
        lemma_digits_bound(fraction.skip(FRACTION_DIGITS as int));
        lemma_pow10_adds(rest_len, FRACTION_DIGITS as nat);
        assert(value * scale == head * divisor + tail * scale) by (nonlinear_arith)
            requires
                value == head * rest + tail,
                divisor == rest * scale,
        ;
        assert(0 <= tail * scale < divisor) by (nonlinear_arith)
            requires
                0 <= tail < rest,
                0 < scale,
                divisor == rest * scale,
        ;
        lemma_fundamental_div_mod_converse(value * scale, divisor, head, tail * scale);
    }
}

/// Converts a decimal to its fixed-point representation with twelve
/// fractional digits.
///
/// Fails with [`ConvertingError::InvalidInput`] on a malformed or negative
/// decimal and with [`ConvertingError::Overflow`] when the integer part times
/// 10^12 exceeds 128 bits. The fractional digits are added with saturation.
pub fn convert_decimal_to_u128(input: &Decimal) -> (result: Result<u128, ConvertingError>)
    ensures
        result == input@.normalized(),
{
    if !all_digits(&input.integer) || !all_digits(&input.fraction) {
        return Err(ConvertingError::InvalidInput);
    }
    if input.negative && !(all_zero(&input.integer) && all_zero(&input.fraction)) {
        return Err(ConvertingError::InvalidInput);
    }
    let whole = match integer_value(&input.integer) {
        Some(w) => w,
        None => {
            return Err(ConvertingError::Overflow);
        },
    };
    let trunc = match whole.checked_mul(SCALE) {
        Some(t) => t,
        None => {
            return Err(ConvertingError::Overflow);
        },
    };
    let fract = fraction_value(&input.fraction);
    Ok(trunc.saturating_add(fract))
}

} // verus!
