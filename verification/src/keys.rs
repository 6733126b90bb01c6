//! From key codes to characters.
//!
//! A key of the keyboard is known by its code, which for the keys that type
//! something is the ASCII code of the unshifted character. Two tables turn a
//! code into the character that the key types, without and with Shift; a
//! key that types nothing gives the character 0.

use piston::input::Key;
use vstd::prelude::*;

verus! {

/// piston's `Key`, a key of the keyboard. Nothing is known of a value of it
/// but its code.
#[verifier::external_type_specification]
#[verifier::external_body]
pub struct ExKey(piston::input::Key);

/// The code of the Backspace key.
pub const BACKSPACE: i32 = 8;

/// The code of the Return key.
pub const RETURN: i32 = 13;

/// The code of a key, as piston's `Key::code` gives it.
pub uninterp spec fn key_code(key: Key) -> i32;

/// `Key::code` of piston: the number that the key's variant stands for in
/// the enum, which lists the keys with their SDL key codes (`Backspace` is
/// 8, `Return` is 13, a letter or digit key its lower-case ASCII code).
#[verifier::external_body]
pub(crate) fn code_of(key: &Key) -> (code: i32)
    ensures
        code == key_code(*key),
{
    key.code()
}

/// Whether `code` is the code of a letter key.
pub open spec fn is_letter_code(code: i32) -> bool {
    97 <= code <= 122
}

/// Whether `code` is the code of a digit key.
pub open spec fn is_digit_code(code: i32) -> bool {
    48 <= code <= 57
}

/// Whether `code` is the code of one of the punctuation keys, of Tab or of
/// the space bar.
pub open spec fn is_symbol_code(code: i32) -> bool {
    code == 45 || code == 61 || code == 91 || code == 93 || code == 92 || code == 59 || code == 44
        || code == 46 || code == 47 || code == 9 || code == 32
}

/// What the key with code `code` types without Shift: the character with
/// that code, for a letter, a digit, one of `- = [ ] \ ; , . /`, Tab and the
/// space bar; the character 0 for every other key.
pub open spec fn lower_char(code: i32) -> char {
    if is_letter_code(code) || is_digit_code(code) || is_symbol_code(code) {
        code as char
    } else {
        0 as char
    }
}

/// What the digit key with code `code` types with Shift.
pub open spec fn shifted_digit(code: i32) -> char {
    if code == 48 {
        ')'
    } else if code == 49 {
        '!'
    } else if code == 50 {
        '@'
    } else if code == 51 {
        '#'
    } else if code == 52 {
        '$'
    } else if code == 53 {
        '%'
    } else if code == 54 {
        '^'
    } else if code == 55 {
        '&'
    } else if code == 56 {
        '*'
    } else {
        '('
    }
}

/// What the punctuation key with code `code` types with Shift. Tab and the
/// space bar type what they type without it.
pub open spec fn shifted_symbol(code: i32) -> char {
    if code == 45 {
        '_'
    } else if code == 61 {
        '+'
    } else if code == 91 {
        '{'
    } else if code == 93 {
        '}'
    } else if code == 92 {
        '|'
    } else if code == 59 {
        ':'
    } else if code == 44 {
        '<'
    } else if code == 46 {
        '>'
    } else if code == 47 {
        '?'
    } else if code == 9 {
        '\t'
    } else {
        ' '
    }
}

/// What the key with code `code` types with Shift: the capital for a letter
/// key, the symbol above the digit for a digit key, the second symbol of a
/// punctuation key; the character 0 for every other key.
pub open spec fn upper_char(code: i32) -> char {
    if is_letter_code(code) {
        (code - 32) as char
    } else if is_digit_code(code) {
        shifted_digit(code)
    } else if is_symbol_code(code) {
        shifted_symbol(code)
    } else {
        0 as char
    }
}

/// What a key types into the console entry without Shift: a letter, a
/// digit, `-`, `.` or a space; the character 0 for every other key.
pub open spec fn entry_lower_char(code: i32) -> char {
    if is_letter_code(code) || is_digit_code(code) || code == 45 || code == 46 || code == 32 {
        code as char
    } else {
        0 as char
    }
}

/// What a key types into the console entry with Shift: a capital letter,
/// `_` for the `-` key, or a space; the character 0 for every other key.
pub open spec fn entry_upper_char(code: i32) -> char {
    if is_letter_code(code) {
        (code - 32) as char
    } else if code == 45 {
        '_'
    } else if code == 32 {
        ' '
    } else {
        0 as char
    }
}

/// The character that the key with code `key` types without Shift, or the
/// character 0 where it types nothing.
pub fn getlowerchar(key: &i32) -> (c: char)
    ensures
        c == lower_char(*key),
{
    let code: i32 = *key;
    if (97 <= code && code <= 122) || (48 <= code && code <= 57) || code == 45 || code == 61
        || code == 91 || code == 93 || code == 92 || code == 59 || code == 44 || code == 46 || code
        == 47 || code == 9 || code == 32 {
        code as u8 as char
    } else {
        0u8 as char
    }
}

/// The character that the key with code `key` types with Shift, or the
/// character 0 where it types nothing.
pub fn getupperchar(key: &i32) -> (c: char)
    ensures
        c == upper_char(*key),
{
    let code: i32 = *key;
    if 97 <= code && code <= 122 {
        (code - 32) as u8 as char
    } else {
        match code {
            48 => ')',
            49 => '!',
            50 => '@',
            51 => '#',
            52 => '$',
            53 => '%',
            54 => '^',
            55 => '&',
            56 => '*',
            57 => '(',
            45 => '_',
            61 => '+',
            91 => '{',
            93 => '}',
            92 => '|',
            59 => ':',
            44 => '<',
            46 => '>',
            47 => '?',
            9 => '\t',
            32 => ' ',
            _ => 0u8 as char,
        }
    }
}

/// The character that the key with code `code` types into the console
/// entry without Shift, or the character 0 where it types nothing.
pub fn entry_lower(code: i32) -> (c: char)
    ensures
        c == entry_lower_char(code),
{
    if (97 <= code && code <= 122) || (48 <= code && code <= 57) || code == 45 || code == 46
        || code == 32 {
        code as u8 as char
    } else {
        0u8 as char
    }
}

/// The character that the key with code `code` types into the console
/// entry with Shift, or the character 0 where it types nothing.
pub fn entry_upper(code: i32) -> (c: char)
    ensures
        c == entry_upper_char(code),
{
    if 97 <= code && code <= 122 {
        (code - 32) as u8 as char
    } else if code == 45 {
        '_'
    } else if code == 32 {
        ' '
    } else {
        0u8 as char
    }
}

} // verus!
