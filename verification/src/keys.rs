//! Decoded keyboard events, as the keyboard decoder hands them on.
use vstd::prelude::*;
use pc_keyboard::DecodedKey;

verus! {

/// Makes `pc_keyboard::DecodedKey` known as a type whose values are passed
/// on unseen.
#[verifier::external_type_specification]
#[verifier::external_body]
pub struct ExDecodedKey(DecodedKey);

/// The character that a decoded key stands for, if it stands for one: the
/// character of a `Unicode` key, none for a `RawKey`. It depends on the key
/// alone.
pub uninterp spec fn character_of(key: DecodedKey) -> Option<char>;

/// The character that the key stands for, if it stands for one.
///
/// Tells the two variants of `pc_keyboard::DecodedKey` apart: `Unicode`
/// gives its character, `RawKey` gives none. The body is not verified. The
/// contract claims only that the result is the same for the same key; what
/// the shell does is stated for each result, in `handle_character`.
#[verifier::external_body]
pub(crate) fn decoded_character(key: DecodedKey) -> (character: Option<char>)
    ensures
        character == character_of(key),
{
    match key {
        DecodedKey::Unicode(character) => Some(character),
        DecodedKey::RawKey(_) => None,
    }
}

/// The low byte of the character's code.
pub open spec fn low_byte(character: char) -> u8 {
    (character as u32 % 256) as u8
}

/// The byte as which the shell takes a character: the low byte of its code.
pub fn key_byte(character: char) -> (key: u8)
    ensures
        key == low_byte(character),
{
    let code: u32 = character as u32;
    (code % 256) as u8
}

} // verus!
