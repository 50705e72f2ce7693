//! Building of the texts that the library hands out.

use vstd::prelude::*;

verus! {

/// `String::push_str` appends the given text to the end of the string: the
/// string afterwards is the string before, followed by the text.
#[verifier::external_body]
pub(crate) fn push_str(target: &mut String, text: &str)
    ensures
        final(target)@ == old(target)@ + text@,
{
    target.push_str(text);
}

/// `String::push` appends the given character to the end of the string: the
/// string afterwards is the string before, followed by the character.
#[verifier::external_body]
pub(crate) fn push_char(target: &mut String, c: char)
    ensures
        final(target)@ == old(target)@.push(c),
{
    target.push(c);
}

/// The lower-case hexadecimal digit for a value below 16.
pub open spec fn hex_digit(value: int) -> char
    recommends
        0 <= value < 16,
{
    if value < 10 {
        (0x30 + value) as char
    } else {
        (0x61 + value - 10) as char
    }
}

/// A 16-bit value as four lower-case hexadecimal digits.
pub open spec fn hex4(value: u16) -> Seq<char> {
    seq![
        hex_digit(value as int / 4096),
        hex_digit(value as int / 256 % 16),
        hex_digit(value as int / 16 % 16),
        hex_digit(value as int % 16),
    ]
}

/// Computes [`hex_digit`].
fn hex_digit_of(value: u16) -> (c: char)
    requires
        value < 16,
    ensures
        c == hex_digit(value as int),
{
    if value < 10 {
        (0x30u8 + value as u8) as char
    } else {
        (0x61u8 + (value as u8 - 10)) as char
    }
}

/// Appends a 16-bit value as four lower-case hexadecimal digits.
pub fn push_hex4(target: &mut String, value: u16)
    ensures
        final(target)@ == old(target)@ + hex4(value),
{
    push_char(target, hex_digit_of(value / 4096));
    push_char(target, hex_digit_of(value / 256 % 16));
    push_char(target, hex_digit_of(value / 16 % 16));
    push_char(target, hex_digit_of(value % 16));
    assert(target@ =~= old(target)@ + hex4(value));
}

} // verus!
