//! Character classification and small text conversions shared by the lexer,
//! the lowering pass and the code generator.

use vstd::prelude::*;

verus! {

/// ASCII letter, `a`..`z` or `A`..`Z`.
pub open spec fn is_alpha(c: char) -> bool {
    let u = c as u32;
    (97 <= u && u <= 122) || (65 <= u && u <= 90)
}

/// ASCII digit, `0`..`9`.
pub open spec fn is_digit(c: char) -> bool {
    let u = c as u32;
    48 <= u && u <= 57
}

/// ASCII letter or digit.
pub open spec fn is_alnum(c: char) -> bool {
    is_alpha(c) || is_digit(c)
}

/// ASCII whitespace: space, tab, line feed, form feed or carriage return.
pub open spec fn is_whitespace(c: char) -> bool {
    let u = c as u32;
    u == 32 || u == 9 || u == 10 || u == 12 || u == 13
}

pub fn alpha_char(c: char) -> (r: bool)
    ensures
        r == is_alpha(c),
{
    let u = c as u32;
    (97 <= u && u <= 122) || (65 <= u && u <= 90)
}

pub fn digit_char(c: char) -> (r: bool)
    ensures
        r == is_digit(c),
{
    let u = c as u32;
    48 <= u && u <= 57
}

pub fn alnum_char(c: char) -> (r: bool)
    ensures
        r == is_alnum(c),
{
    alpha_char(c) || digit_char(c)
}

pub fn whitespace_char(c: char) -> (r: bool)
    ensures
        r == is_whitespace(c),
{
    let u = c as u32;
    u == 32 || u == 9 || u == 10 || u == 12 || u == 13
}

/// Relies on `str::chars` and `Iterator::collect`: the characters of the
/// string, in order.
#[verifier::external_body]
pub fn string_to_chars(s: &str) -> (v: Vec<char>)
    ensures
        v@ == s@,
{
    s.chars().collect()
}

/// Relies on `Iterator::collect` for `String`: the string made of the given
/// characters, in order.
#[verifier::external_body]
pub fn chars_to_string(v: &Vec<char>) -> (s: String)
    ensures
        s@ == v@,
{
    v.iter().collect()
}

} // verus!
