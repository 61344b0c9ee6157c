use vstd::prelude::*;

use crate::keys::Key;

verus! {

/// The character with a given scalar value, if there is one.
pub open spec fn scalar(value: u32) -> Option<char> {
    if value <= 0xd7ff || 0xe000 <= value <= 0x10ffff {
        Some(value as char)
    } else {
        None
    }
}

/// `std::char::from_u32` gives the character with the scalar value `i`, and
/// `None` for the surrogates and for everything above `0x10ffff`.
pub assume_specification[ std::char::from_u32 ](i: u32) -> (c: Option<char>)
    ensures
        c == scalar(i),
;

/// What `str::to_uppercase` gives for a text.
pub uninterp spec fn uppercase(text: Seq<char>) -> Seq<char>;

/// Calls `str::to_uppercase`. The mapping is that of the Unicode tables and is
/// only named here: the same text always gives the same result.
#[verifier::external_body]
pub(crate) fn to_uppercase(text: &str) -> (upper: String)
    ensures
        upper@ == uppercase(text@),
{
    text.to_uppercase()
}

/// Calls `char::to_string`: the text that consists of the one character.
#[verifier::external_body]
pub(crate) fn char_to_string(c: char) -> (text: String)
    ensures
        text@ == seq![c],
{
    c.to_string()
}

/// The key that gives a character; a value that is no character stands for NUL.
pub open spec fn layout_key(value: u32) -> Key {
    match scalar(value) {
        Some(c) => Key::Layout(c),
        None => Key::Layout('\0'),
    }
}

pub fn char_value_to_key(value: u32) -> (key: Key)
    ensures
        key == layout_key(value),
{
    match std::char::from_u32(value) {
        Some(c) => Key::Layout(c),
        None => Key::Layout('\0'),
    }
}

/// A character is found by its number and has a key of its own; a number that no
/// character has stands for NUL.
pub proof fn law_characters_have_keys(c: char, value: u32)
    ensures
        scalar(c as u32) == Some(c),
        layout_key(c as u32) == Key::Layout(c),
        (0xd800 <= value <= 0xdfff) || value > 0x10ffff ==> scalar(value) is None && layout_key(
            value,
        ) == Key::Layout('\0'),
{
}

} // verus!
