//! Classes of bytes.

use vstd::prelude::*;

verus! {

pub const TAB: u8 = 9;
pub const LINE_FEED: u8 = 10;
pub const CARRIAGE_RETURN: u8 = 13;
pub const SPACE: u8 = 32;
pub const BANG: u8 = 33;
pub const DOUBLE_QUOTE: u8 = 34;
pub const HASH: u8 = 35;
pub const PERCENT: u8 = 37;
pub const SINGLE_QUOTE: u8 = 39;
pub const HYPHEN: u8 = 45;
pub const FULL_STOP: u8 = 46;
pub const DIGIT_ZERO: u8 = 48;
pub const DIGIT_ONE: u8 = 49;
pub const DIGIT_NINE: u8 = 57;
pub const COLON: u8 = 58;
pub const SEMICOLON: u8 = 59;
pub const EQUALS_SIGN: u8 = 61;
pub const GREATER_THAN: u8 = 62;
pub const QUESTION_MARK: u8 = 63;
pub const AT_SIGN: u8 = 64;
pub const UPPER_A: u8 = 65;
pub const UPPER_Z: u8 = 90;
pub const LEFT_BRACKET: u8 = 91;
pub const BACKSLASH: u8 = 92;
pub const RIGHT_BRACKET: u8 = 93;
pub const CARET: u8 = 94;
pub const LOWER_A: u8 = 97;
pub const LOWER_Z: u8 = 122;
pub const VERTICAL_BAR: u8 = 124;
pub const TILDE: u8 = 126;

/// Space, tab, line feed or carriage return.
#[verifier::allow_in_spec]
pub fn is_whitespace(c: u8) -> bool
    returns
        c == SPACE || c == TAB || c == LINE_FEED || c == CARRIAGE_RETURN,
{
    c == SPACE || c == TAB || c == LINE_FEED || c == CARRIAGE_RETURN
}

/// An ASCII letter or digit.
#[verifier::allow_in_spec]
pub fn is_alphanumeric(c: u8) -> bool
    returns
        is_alphabetic(c) || is_digit(c),
{
    is_alphabetic(c) || is_digit(c)
}

/// `0` to `9`.
#[verifier::allow_in_spec]
pub fn is_digit(c: u8) -> bool
    returns
        DIGIT_ZERO <= c && c <= DIGIT_NINE,
{
    c >= DIGIT_ZERO && c <= DIGIT_NINE
}

/// An ASCII letter.
#[verifier::allow_in_spec]
pub fn is_alphabetic(c: u8) -> bool
    returns
        is_alphabetic_uppercase(c) || is_alphabetic_lowercase(c),
{
    is_alphabetic_uppercase(c) || is_alphabetic_lowercase(c)
}

/// `A` to `Z`.
#[verifier::allow_in_spec]
pub fn is_alphabetic_uppercase(c: u8) -> bool
    returns
        UPPER_A <= c && c <= UPPER_Z,
{
    c >= UPPER_A && c <= UPPER_Z
}

/// `a` to `z`.
#[verifier::allow_in_spec]
pub fn is_alphabetic_lowercase(c: u8) -> bool
    returns
        LOWER_A <= c && c <= LOWER_Z,
{
    c >= LOWER_A && c <= LOWER_Z
}

/// A byte that ends a token even without whitespace before it: `[` or `]`.
#[verifier::allow_in_spec]
pub fn is_token_end_delimiter(c: u8) -> bool
    returns
        c == LEFT_BRACKET || c == RIGHT_BRACKET,
{
    c == LEFT_BRACKET || c == RIGHT_BRACKET
}

} // verus!
