//! The number system of the language.
//!
//! Numbers are IEEE-754 binary64 values, carried through the library as
//! their 64-bit encodings. Sign, zero, NaN, negation, equality and order are
//! defined here on the encoding. Decimal conversion, the four arithmetic
//! operations and formatting come from an implementation of `Numbers`
//! supplied by the caller (floating point itself stays outside this
//! library). Each of its operations is a function of its arguments: the
//! contracts here name the results (`sum`, `text_of`, ...) and say nothing
//! more of them.
use vstd::prelude::*;

verus! {

pub trait Numbers {
    /// The value of decimal literal text, or `None` where it is not one.
    spec fn parsed(&self, text: String) -> Option<u64>;

    spec fn sum(&self, a: u64, b: u64) -> u64;

    spec fn difference(&self, a: u64, b: u64) -> u64;

    spec fn product(&self, a: u64, b: u64) -> u64;

    spec fn quotient(&self, a: u64, b: u64) -> u64;

    /// The display text of a number.
    spec fn text_of(&self, a: u64) -> String;

    /// The value of a decimal literal (digits with at most one point), or
    /// `None` where the text is not one.
    fn parse(&self, text: &String) -> (r: Option<u64>)
        ensures
            r == self.parsed(*text),
    ;

    fn add(&self, a: u64, b: u64) -> (r: u64)
        ensures
            r == self.sum(a, b),
    ;

    fn subtract(&self, a: u64, b: u64) -> (r: u64)
        ensures
            r == self.difference(a, b),
    ;

    fn multiply(&self, a: u64, b: u64) -> (r: u64)
        ensures
            r == self.product(a, b),
    ;

    fn divide(&self, a: u64, b: u64) -> (r: u64)
        ensures
            r == self.quotient(a, b),
    ;

    /// The display text of `a`.
    fn to_text(&self, a: u64) -> (r: String)
        ensures
            r == self.text_of(a),
    ;
}

pub const SIGN_BIT: u64 = 0x8000_0000_0000_0000;

pub const MAGNITUDE_BITS: u64 = 0x7fff_ffff_ffff_ffff;

pub const EXPONENT_BITS: u64 = 0x7ff0_0000_0000_0000;

pub const FRACTION_BITS: u64 = 0x000f_ffff_ffff_ffff;

/// The encoding without its sign: it orders non-negative values as numbers.
pub open spec fn magnitude(a: u64) -> u64 {
    a & MAGNITUDE_BITS
}

pub open spec fn sign_negative(a: u64) -> bool {
    a & SIGN_BIT != 0
}

/// Positive or negative zero.
pub open spec fn zero(a: u64) -> bool {
    magnitude(a) == 0
}

/// Not a number: all exponent bits set and a non-zero fraction.
pub open spec fn nan(a: u64) -> bool {
    a & EXPONENT_BITS == EXPONENT_BITS && a & FRACTION_BITS != 0
}

/// IEEE equality: NaN equals nothing, the two zeros are equal.
pub open spec fn num_eq(a: u64, b: u64) -> bool {
    !nan(a) && !nan(b) && (a == b || (zero(a) && zero(b)))
}

/// IEEE order: false when either side is NaN.
pub open spec fn num_lt(a: u64, b: u64) -> bool {
    &&& !nan(a)
    &&& !nan(b)
    &&& !(zero(a) && zero(b))
    &&& if sign_negative(a) && sign_negative(b) {
        magnitude(b) < magnitude(a)
    } else if sign_negative(a) {
        true
    } else if sign_negative(b) {
        false
    } else {
        magnitude(a) < magnitude(b)
    }
}

pub open spec fn num_le(a: u64, b: u64) -> bool {
    num_lt(a, b) || num_eq(a, b)
}

/// Whether `a` is a zero of either sign.
pub fn is_zero(a: u64) -> (r: bool)
    ensures
        r == zero(a),
{
    a & MAGNITUDE_BITS == 0
}

pub fn is_nan(a: u64) -> (r: bool)
    ensures
        r == nan(a),
{
    a & EXPONENT_BITS == EXPONENT_BITS && a & FRACTION_BITS != 0
}

/// Negation: the same value with the sign flipped.
pub fn negate(a: u64) -> (r: u64)
    ensures
        r == a ^ SIGN_BIT,
{
    a ^ SIGN_BIT
}

pub fn equal(a: u64, b: u64) -> (r: bool)
    ensures
        r == num_eq(a, b),
{
    !is_nan(a) && !is_nan(b) && (a == b || (is_zero(a) && is_zero(b)))
}

pub fn less(a: u64, b: u64) -> (r: bool)
    ensures
        r == num_lt(a, b),
{
    if is_nan(a) || is_nan(b) || (is_zero(a) && is_zero(b)) {
        return false;
    }
    let a_negative = a & SIGN_BIT != 0;
    let b_negative = b & SIGN_BIT != 0;
    if a_negative && b_negative {
        b & MAGNITUDE_BITS < a & MAGNITUDE_BITS
    } else if a_negative {
        true
    } else if b_negative {
        false
    } else {
        a & MAGNITUDE_BITS < b & MAGNITUDE_BITS
    }
}

pub fn less_equal(a: u64, b: u64) -> (r: bool)
    ensures
        r == num_le(a, b),
{
    less(a, b) || equal(a, b)
}

} // verus!
