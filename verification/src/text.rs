//! Building the texts that the reports are made of.
//!
//! `decimal_string` and `push_text` are taken on trust from `std`: their
//! contracts say what the documentation of `to_string` and of `push_str`
//! says.

use vstd::prelude::*;

verus! {

/// The character of one decimal digit.
pub open spec fn digit_char(digit: nat) -> char {
    if digit == 0 {
        '0'
    } else if digit == 1 {
        '1'
    } else if digit == 2 {
        '2'
    } else if digit == 3 {
        '3'
    } else if digit == 4 {
        '4'
    } else if digit == 5 {
        '5'
    } else if digit == 6 {
        '6'
    } else if digit == 7 {
        '7'
    } else if digit == 8 {
        '8'
    } else {
        '9'
    }
}

/// A number in decimal, without sign or leading zeros.
pub open spec fn decimal_text(value: nat) -> Seq<char>
    decreases value,
{
    if value < 10 {
        seq![digit_char(value)]
    } else {
        decimal_text(value / 10).push(digit_char(value % 10))
    }
}

/// `u128`'s `to_string`: the number in decimal.
#[verifier::external_body]
pub(crate) fn decimal_string(value: u128) -> (text: String)
    ensures
        text@ == decimal_text(value as nat),
{
    value.to_string()
}

/// `String::push_str`: appends `tail` to `target`.
#[verifier::external_body]
pub(crate) fn push_text(target: &mut String, tail: &str)
    ensures
        final(target)@ == old(target)@ + tail@,
{
    target.push_str(tail)
}

/// The decimal text of a number.
pub fn decimal(value: u128) -> (text: String)
    ensures
        text@ == decimal_text(value as nat),
{
    decimal_string(value)
}

/// `head` followed by `tail`.
pub fn joined(head: &str, tail: &str) -> (text: String)
    ensures
        text@ == head@ + tail@,
{
    let mut text = head.to_owned();
    push_text(&mut text, tail);
    text
}

} // verus!
