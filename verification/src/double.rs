//! Double-precision numbers, held as their IEEE 754 bit patterns.
//!
//! The sign is the top bit, the next eleven bits are the exponent and the low
//! fifty-two the fraction. Questions about a number's sign and class are
//! answered here from the bits; arithmetic is left to the machine.

use vstd::prelude::*;

verus! {

/// The machine's double-precision type: the real part of a `num_complex::Complex64`.
pub(crate) type Double = <num_complex::Complex64 as num_complex::ComplexFloat>::Real;

/// The sign bit alone: the bits of negative zero.
pub const SIGN_BIT: u64 = 0x8000_0000_0000_0000;

/// The bits of positive zero.
pub const ZERO: u64 = 0;

/// The bits of the number one.
pub const ONE: u64 = 0x3ff0_0000_0000_0000;

/// The bits of positive infinity.
pub const INFINITY: u64 = 0x7ff0_0000_0000_0000;

/// The bits of negative infinity.
pub const NEG_INFINITY: u64 = 0xfff0_0000_0000_0000;

/// The bits of the quiet not-a-number without payload.
pub const NAN: u64 = 0x7ff8_0000_0000_0000;

/// The bits of `x` with the sign bit cleared.
pub open spec fn magnitude(x: u64) -> u64 {
    if x >= SIGN_BIT {
        (x - SIGN_BIT) as u64
    } else {
        x
    }
}

/// True if the sign bit of `x` is set.
pub open spec fn sign_is_set(x: u64) -> bool {
    x >= SIGN_BIT
}

/// True if `x` is not a number.
pub open spec fn spec_is_nan(x: u64) -> bool {
    magnitude(x) > INFINITY
}

/// True if `x` is positive or negative infinity.
pub open spec fn spec_is_infinite(x: u64) -> bool {
    magnitude(x) == INFINITY
}

/// True if `x` is positive or negative zero.
pub open spec fn spec_is_zero(x: u64) -> bool {
    magnitude(x) == 0
}

/// True if `x` is a number less than zero.
pub open spec fn spec_is_below_zero(x: u64) -> bool {
    sign_is_set(x) && 0 < magnitude(x) <= INFINITY
}

/// True if `x` lies strictly between zero and one.
pub open spec fn spec_is_proper_fraction(x: u64) -> bool {
    0 < x < ONE
}

/// True if `x` and `y` are equal as numbers: neither is not-a-number, and
/// they have the same bits or are both zero.
pub open spec fn spec_equal(x: u64, y: u64) -> bool {
    !spec_is_nan(x) && !spec_is_nan(y) && (x == y || (spec_is_zero(x) && spec_is_zero(y)))
}

/// The magnitude of `x` with the sign of `y`.
pub open spec fn spec_with_sign_of(x: u64, y: u64) -> u64 {
    if sign_is_set(y) {
        (magnitude(x) + SIGN_BIT) as u64
    } else {
        magnitude(x)
    }
}

/// One with the sign of `x`, or not-a-number if `x` is.
pub open spec fn spec_signum(x: u64) -> u64 {
    if spec_is_nan(x) {
        NAN
    } else {
        spec_with_sign_of(ONE, x)
    }
}

/// True if `x` and `y` are the same number, or both not a number. Which of
/// the many bit patterns of not-a-number an operation gives is left open, so
/// this is all that is known of two results of one operation.
pub open spec fn same_number(x: u64, y: u64) -> bool {
    x == y || (spec_is_nan(x) && spec_is_nan(y))
}

/// `x` itself, or the quiet not-a-number without payload if `x` is not a number.
pub open spec fn spec_canonical(x: u64) -> u64 {
    if spec_is_nan(x) {
        NAN
    } else {
        x
    }
}

/// The difference `x - y`, rounded as the machine rounds it.
pub uninterp spec fn difference(x: u64, y: u64) -> u64;

/// The number nearest to the count `n`.
pub uninterp spec fn of_count(n: u64) -> u64;

/// The whole part of `x` as a count: zero for not-a-number and for anything
/// below one, the largest count for anything too big.
pub uninterp spec fn truncated(x: u64) -> u64;

/// The shortest decimal text that reads back as `x`, as `ryu` prints it.
pub uninterp spec fn shortest_text(x: u64) -> Seq<char>;

/// `s` with an underscore in place of every minus sign.
pub open spec fn underscored(s: Seq<char>) -> Seq<char> {
    Seq::new(s.len(), |i: int| if s[i] == '-' { '_' } else { s[i] })
}

/// `s` without a trailing `.0`, if it has one.
pub open spec fn without_point_zero(s: Seq<char>) -> Seq<char> {
    if s.len() >= 2 && s[s.len() - 2] == '.' && s[s.len() - 1] == '0' {
        s.subrange(0, s.len() - 2)
    } else {
        s
    }
}

/// How a number is written: `_` and `__` for the infinities, `0` for zero
/// whatever its sign, and otherwise its shortest decimal text with `_` for the
/// minus sign and no trailing `.0`.
pub open spec fn display_text(x: u64) -> Seq<char> {
    if x == INFINITY {
        seq!['_']
    } else if x == NEG_INFINITY {
        seq!['_', '_']
    } else if spec_is_zero(x) {
        seq!['0']
    } else {
        without_point_zero(underscored(shortest_text(x)))
    }
}

/// Tells whether `x` is not a number.
#[verifier::when_used_as_spec(spec_is_nan)]
pub fn is_nan(x: u64) -> (r: bool)
    ensures
        r == spec_is_nan(x),
{
    if x >= SIGN_BIT {
        x - SIGN_BIT > INFINITY
    } else {
        x > INFINITY
    }
}

/// Tells whether `x` is positive or negative infinity.
#[verifier::when_used_as_spec(spec_is_infinite)]
pub fn is_infinite(x: u64) -> (r: bool)
    ensures
        r == spec_is_infinite(x),
{
    x == INFINITY || x == NEG_INFINITY
}

/// Tells whether `x` is positive or negative zero.
#[verifier::when_used_as_spec(spec_is_zero)]
pub fn is_zero(x: u64) -> (r: bool)
    ensures
        r == spec_is_zero(x),
{
    x == ZERO || x == SIGN_BIT
}

/// Tells whether `x` is a number less than zero.
#[verifier::when_used_as_spec(spec_is_below_zero)]
pub fn is_below_zero(x: u64) -> (r: bool)
    ensures
        r == spec_is_below_zero(x),
{
    x > SIGN_BIT && x <= NEG_INFINITY
}

/// Tells whether `x` lies strictly between zero and one.
#[verifier::when_used_as_spec(spec_is_proper_fraction)]
pub fn is_proper_fraction(x: u64) -> (r: bool)
    ensures
        r == spec_is_proper_fraction(x),
{
    0 < x && x < ONE
}

/// Tells whether `x` and `y` are equal as numbers.
#[verifier::when_used_as_spec(spec_equal)]
pub fn equal(x: u64, y: u64) -> (r: bool)
    ensures
        r == spec_equal(x, y),
{
    !is_nan(x) && !is_nan(y) && (x == y || (is_zero(x) && is_zero(y)))
}

/// Gives `x` the sign of `y`.
#[verifier::when_used_as_spec(spec_with_sign_of)]
pub fn with_sign_of(x: u64, y: u64) -> (r: u64)
    ensures
        r == spec_with_sign_of(x, y),
{
    let m: u64 = if x >= SIGN_BIT {
        x - SIGN_BIT
    } else {
        x
    };
    if y >= SIGN_BIT {
        m + SIGN_BIT
    } else {
        m
    }
}

/// One with the sign of `x`, or not-a-number if `x` is.
#[verifier::when_used_as_spec(spec_signum)]
pub fn signum(x: u64) -> (r: u64)
    ensures
        r == spec_signum(x),
{
    if is_nan(x) {
        NAN
    } else {
        with_sign_of(ONE, x)
    }
}

/// `x` itself, or the quiet not-a-number without payload if `x` is not a number.
#[verifier::when_used_as_spec(spec_canonical)]
pub fn canonical(x: u64) -> (r: u64)
    ensures
        r == spec_canonical(x),
{
    if is_nan(x) {
        NAN
    } else {
        x
    }
}

/// The difference `x - y`, with one bit pattern for every not-a-number.
pub open spec fn spec_minus(x: u64, y: u64) -> u64 {
    spec_canonical(difference(x, y))
}

/// Subtracts `y` from `x`.
#[verifier::when_used_as_spec(spec_minus)]
pub fn minus(x: u64, y: u64) -> (r: u64)
    ensures
        r == spec_minus(x, y),
{
    canonical(subtract(x, y))
}

/// The machine's subtraction of doubles: as a number, the result depends on
/// the operands' bits alone.
#[verifier::external_body]
fn subtract(x: u64, y: u64) -> (r: u64)
    ensures
        same_number(r, difference(x, y)),
{
    (Double::from_bits(x) - Double::from_bits(y)).to_bits()
}

/// The cast from an unsigned integer to a double, which rounds to the nearest number.
#[verifier::external_body]
pub(crate) fn from_count(n: u64) -> (r: u64)
    ensures
        r == of_count(n),
{
    (n as Double).to_bits()
}

/// The cast from a double to an unsigned integer, which drops the fraction,
/// stops at the ends of the integer's range and turns not-a-number into zero.
#[verifier::external_body]
pub(crate) fn truncate(x: u64) -> (n: u64)
    ensures
        n == truncated(x),
{
    Double::from_bits(x) as u64
}

/// `ryu::Buffer::format`: the shortest decimal text that reads back as `x`.
/// It prints every double, with `NaN`, `inf` and `-inf` for those that are not finite.
#[verifier::external_body]
pub(crate) fn format(x: u64) -> (text: Vec<char>)
    ensures
        text@ == shortest_text(x),
{
    ryu::Buffer::new().format(Double::from_bits(x)).chars().collect()
}

/// Writes a number as the language writes it.
pub fn display(x: u64) -> (text: Vec<char>)
    ensures
        text@ == display_text(x),
{
    if x == INFINITY {
        vec!['_']
    } else if x == NEG_INFINITY {
        vec!['_', '_']
    } else if is_zero(x) {
        vec!['0']
    } else {
        let digits = format(x);
        let mut n: usize = digits.len();
        if n >= 2 && digits[n - 2] == '.' && digits[n - 1] == '0' {
            n = n - 2;
        }
        let mut text: Vec<char> = Vec::new();
        let mut i: usize = 0;
        while i < n
            invariant
                i <= n <= digits.len(),
                text@.len() == i,
                forall|j: int| 0 <= j < i ==> text@[j] == underscored(digits@)[j],
            decreases n - i,
        {
            let c = digits[i];
            text.push(if c == '-' { '_' } else { c });
            i += 1;
        }
        assert(text@ =~= without_point_zero(underscored(digits@)));
        text
    }
}

} // verus!
