//! Decimal numbers in plain text.
//!
//! The accepted spelling is an optional minus sign, one or more digits, and
//! optionally a point followed by one or more digits. Anything else is not a
//! decimal number.

use crate::decimal::convert_decimal_to_u128;
use crate::decimal::ConvertingError;
use crate::decimal::Decimal;
use crate::decimal::DecimalView;
use vstd::prelude::*;

verus! {

/// `c` is one of the characters `0` to `9`.
pub open spec fn is_digit_char(c: char) -> bool {
    '0' <= c <= '9'
}

/// The digit that the character `c` stands for.
pub open spec fn digit_of(c: char) -> u8 {
    (c as u8 - '0' as u8) as u8
}

/// Every character is a digit.
pub open spec fn is_digit_text(chars: Seq<char>) -> bool {
    forall|i: int| 0 <= i < chars.len() ==> is_digit_char(chars[i])
}

/// The digits that a run of digit characters stands for.
pub open spec fn digits_of(chars: Seq<char>) -> Seq<u8> {
    Seq::new(chars.len(), |i: int| digit_of(chars[i]))
}

/// The decimal that the digits and the optional point of `body` spell, with
/// the given sign.
pub open spec fn parsed_body(negative: bool, body: Seq<char>) -> Option<DecimalView> {
    match body.index_of_first('.') {
        None => if body.len() > 0 && is_digit_text(body) {
            Some(DecimalView { negative, integer: digits_of(body), fraction: Seq::empty() })
        } else {
            None
        },
        Some(point) => {
            let integer = body.take(point);
            let fraction = body.skip(point + 1);
            if integer.len() > 0 && fraction.len() > 0 && is_digit_text(integer) && is_digit_text(
                fraction,
            ) {
                Some(
                    DecimalView {
                        negative,
                        integer: digits_of(integer),
                        fraction: digits_of(fraction),
                    },
                )
            } else {
                None
            }
        },
    }
}

/// The decimal that `text` spells, if it spells one.
pub open spec fn parsed(text: Seq<char>) -> Option<DecimalView> {
    if text.len() > 0 && text[0] == '-' {
        parsed_body(true, text.skip(1))
    } else {
        parsed_body(false, text)
    }
}

/// What converting the text to fixed point yields: text that spells no
/// decimal is invalid input.
pub open spec fn normalized_text(text: Seq<char>) -> Result<u128, ConvertingError> {
    match parsed(text) {
        Some(decimal) => decimal.normalized(),
        None => Err(ConvertingError::InvalidInput),
    }
}

/// The character that spells a digit.
pub open spec fn digit_char(digit: u8) -> char {
    (digit + 48) as char
}

/// The characters that spell a run of digits.
pub open spec fn digit_text(digits: Seq<u8>) -> Seq<char> {
    Seq::new(digits.len(), |i: int| digit_char(digits[i]))
}

/// The plain spelling of a decimal: a minus sign if it is marked negative,
/// the digits before the point and, when there are digits after it, the
/// point and those digits.
pub open spec fn spelled(decimal: DecimalView) -> Seq<char> {
    let sign = if decimal.negative {
        seq!['-']
    } else {
        Seq::<char>::empty()
    };
    let fraction = if decimal.fraction.len() > 0 {
        seq!['.'] + digit_text(decimal.fraction)
    } else {
        Seq::<char>::empty()
    };
    sign + digit_text(decimal.integer) + fraction
}

/// A run of digits is spelled by digit characters, which spell it back.
pub proof fn lemma_digit_text(digits: Seq<u8>)
    requires
        forall|i: int| 0 <= i < digits.len() ==> digits[i] <= 9,
    ensures
        is_digit_text(digit_text(digits)),
        digits_of(digit_text(digits)) == digits,
        !digit_text(digits).contains('.'),
        !digit_text(digits).contains('-'),
{
    let text = digit_text(digits);
    assert forall|i: int| 0 <= i < text.len() implies is_digit_char(text[i]) && digit_of(text[i])
        == digits[i] by {
        assert(text[i] == digit_char(digits[i]));
    }
    assert(digits_of(text) =~= digits);
}

/// Reading the plain spelling of a decimal gives the decimal back, digit
/// for digit, provided that it has a digit before the point.
pub proof fn lemma_parse_reads_spelling(decimal: DecimalView)
    requires
        decimal.well_formed(),
        decimal.integer.len() > 0,
    ensures
        parsed(spelled(decimal)) == Some(decimal),
{
    let text = spelled(decimal);
    let whole = digit_text(decimal.integer);
    let part = digit_text(decimal.fraction);
    lemma_digit_text(decimal.integer);
    lemma_digit_text(decimal.fraction);
    let body = if decimal.fraction.len() > 0 {
        whole + (seq!['.'] + part)
    } else {
        whole
    };
    if decimal.negative {
        assert(text[0] == '-');
        assert(text.skip(1) =~= body);
    } else {
        assert(text =~= body);
        assert(text[0] == whole[0]);
        assert(is_digit_char(whole[0]));
    }
    body.index_of_first_ensures('.');
    if decimal.fraction.len() > 0 {
        let point = whole.len() as int;
        assert(body[point] == '.');
        assert(body.contains('.'));
        let found = body.index_of_first('.')->0;
        if found < point {
            assert(body[found] == whole[found]);
            assert(is_digit_char(whole[found]));
        }
        assert(found == point);
        assert(body.take(point) =~= whole);
        assert(body.skip(point + 1) =~= part);
    } else {
        if body.contains('.') {
            let at = choose|at: int| 0 <= at < body.len() && body[at] == '.';
            assert(is_digit_char(body[at]));
        }
        assert(decimal.fraction =~= Seq::<u8>::empty());
    }
}

/// The characters of `text` in order.
pub fn chars_of(text: &str) -> (chars: Vec<char>)
    ensures
        chars@ == text@,
{
    let mut chars: Vec<char> = Vec::new();
    for c in it: text.chars()
        invariant
            it.seq() == text@,
            chars@ == text@.take(it.index() as int),
    {
        chars.push(c);
    }
    chars
}

/// Reads the digit characters in `chars[from..to)`.
fn read_digits(chars: &Vec<char>, from: usize, to: usize) -> (digits: Option<Vec<u8>>)
    requires
        from <= to <= chars.len(),
    ensures
        match digits {
            Some(d) => is_digit_text(chars@.subrange(from as int, to as int)) && d@ == digits_of(
                chars@.subrange(from as int, to as int),
            ),
            None => !is_digit_text(chars@.subrange(from as int, to as int)),
        },
{
    let ghost run = chars@.subrange(from as int, to as int);
    let mut digits: Vec<u8> = Vec::new();
    let mut i: usize = from;
    while i < to
        invariant
            from <= i <= to <= chars.len(),
            run == chars@.subrange(from as int, to as int),
            digits@.len() == i - from,
            forall|j: int| 0 <= j < i - from ==> is_digit_char(#[trigger] run[j]),
            forall|j: int| 0 <= j < i - from ==> #[trigger] digits@[j] == digit_of(run[j]),
        decreases to - i,
    {
        let c = chars[i];
        assert(run[i - from] == c);
        if c < '0' || c > '9' {
            return None;
        }
        let digit: u8 = c as u8 - 48;
        assert(digit == digit_of(c));
        digits.push(digit);
        i += 1;
    }
    assert(digits@ =~= digits_of(run));
    Some(digits)
}

/// Finds the first point in `chars[from..)`.
fn find_point(chars: &Vec<char>, from: usize) -> (at: usize)
    requires
        from <= chars.len(),
    ensures
        from <= at <= chars.len(),
        chars@.skip(from as int).index_of_first('.') == if at < chars.len() {
            Some(at - from)
        } else {
            None::<int>
        },
{
    let ghost body = chars@.skip(from as int);
    let mut i: usize = from;
    while i < chars.len()
        invariant
            from <= i <= chars.len(),
            body == chars@.skip(from as int),
            forall|j: int| 0 <= j < i - from ==> body[j] != '.',
        decreases chars.len() - i,
    {
        assert(body[i - from] == chars@[i as int]);
        if chars[i] == '.' {
            proof {
                body.index_of_first_ensures('.');
                assert(body.contains('.'));
            }
            return i;
        }
        i += 1;
    }
    proof {
        body.index_of_first_ensures('.');
        assert(!body.contains('.'));
    }
    i
}

/// Reads a decimal number from text.
///
/// Returns `None` unless the text is an optional minus sign, at least one
/// digit and, optionally, a point followed by at least one digit.
pub fn parse_decimal(text: &str) -> (decimal: Option<Decimal>)
    ensures
        match decimal {
            Some(d) => parsed(text@) == Some(d@),
            None => parsed(text@) is None,
        },
{
    let chars = chars_of(text);
    let negative = chars.len() > 0 && chars[0] == '-';
    let start: usize = if negative {
        1
    } else {
        0
    };
    let ghost body = chars@.skip(start as int);
    assert(chars@.skip(0) =~= chars@);
    let point = find_point(&chars, start);
    if point == start {
        assert(body.take(0).len() == 0);
        return None;
    }
    assert(body.take(point - start) =~= chars@.subrange(start as int, point as int));
    let integer = match read_digits(&chars, start, point) {
        Some(digits) => digits,
        None => {
            assert(body.take(body.len() as int) =~= body);
            return None;
        },
    };
    if point == chars.len() {
        assert(body.take(body.len() as int) =~= body);
        return Some(Decimal { negative, integer, fraction: Vec::new() });
    }
    if point + 1 == chars.len() {
        return None;
    }
    assert(body.skip(point - start + 1) =~= chars@.subrange(point + 1, chars.len() as int));
    match read_digits(&chars, point + 1, chars.len()) {
        Some(fraction) => Some(Decimal { negative, integer, fraction }),
        None => None,
    }
}

/// Converts decimal text to its fixed-point representation with twelve
/// fractional digits.
///
/// Text that spells no decimal, and a negative number, give
/// [`ConvertingError::InvalidInput`]; an integer part too large to scale gives
/// [`ConvertingError::Overflow`].
pub fn normalize(text: &str) -> (result: Result<u128, ConvertingError>)
    ensures
        result == normalized_text(text@),
{
    match parse_decimal(text) {
        Some(decimal) => convert_decimal_to_u128(&decimal),
        None => Err(ConvertingError::InvalidInput),
    }
}

} // verus!
