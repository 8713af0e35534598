//! The row of choices a long press on a letter key opens: upper case, symbol, lower case.
//!
//! A long press is deliberate (fast typing never holds a key for 400 ms), so it replaced
//! the swipe that used to type the symbol in the key's corner.

use vstd::prelude::*;
use crate::action::KeyId;

verus! {

/// How many choices the row holds.
pub const CHOICE_COUNT: usize = 3;

/// Which choice the row starts on: the middle one, the symbol.
pub const DEFAULT_CHOICE: usize = 1;

/// `c` in upper case when it is an ASCII letter, unchanged otherwise.
pub open spec fn ascii_upper(c: char) -> char {
    if 'a' <= c <= 'z' {
        ((c as u32) - 32) as char
    } else {
        c
    }
}

/// `c` in lower case when it is an ASCII letter, unchanged otherwise.
pub open spec fn ascii_lower(c: char) -> char {
    if 'A' <= c <= 'Z' {
        ((c as u32) + 32) as char
    } else {
        c
    }
}

/// `c` in upper case when it is an ASCII letter (as `char::to_ascii_uppercase`).
pub fn to_ascii_upper(c: char) -> (upper: char)
    ensures
        upper == ascii_upper(c),
{
    if 'a' <= c && c <= 'z' {
        ((c as u8) - 32) as char
    } else {
        c
    }
}

/// `c` in lower case when it is an ASCII letter (as `char::to_ascii_lowercase`).
pub fn to_ascii_lower(c: char) -> (lower: char)
    ensures
        lower == ascii_lower(c),
{
    if 'A' <= c && c <= 'Z' {
        ((c as u8) + 32) as char
    } else {
        c
    }
}

/// What the row shows for a letter key whose corner holds `hint`: the letter in upper case,
/// the symbol, the letter in lower case.
pub fn items(letter: char, hint: char) -> (row: [char; 3])
    ensures
        row@ == seq![ascii_upper(letter), hint, ascii_lower(letter)],
{
    let row = [to_ascii_upper(letter), hint, to_ascii_lower(letter)];
    assert(row@ =~= seq![ascii_upper(letter), hint, ascii_lower(letter)]);
    row
}

/// The key a choice types: upper case goes out as a literal (typed as it is, even in
/// Chinese mode), lower case is the letter itself (it still goes into the pinyin), and
/// the symbol is a literal, as the corner hint always was.
pub open spec fn spec_fired(letter: char, hint: char, choice: usize) -> KeyId {
    if choice == 0 {
        KeyId::Literal(ascii_upper(letter))
    } else if choice == 2 {
        KeyId::Letter(letter)
    } else {
        KeyId::Literal(hint)
    }
}

/// The key the chosen item of the row types (see [`spec_fired`]).
pub fn fired(letter: char, hint: char, choice: usize) -> (key: KeyId)
    ensures
        key == spec_fired(letter, hint, choice),
{
    match choice {
        0 => KeyId::Literal(to_ascii_upper(letter)),
        2 => KeyId::Letter(letter),
        _ => KeyId::Literal(hint),
    }
}

/// The character a letter or literal key types.
pub open spec fn typed(key: KeyId) -> Option<char> {
    match key {
        KeyId::Letter(c) => Some(c),
        KeyId::Literal(c) => Some(c),
        _ => None,
    }
}

/// For a lower-case letter key, every item of the row types exactly what it shows, and
/// the row opens on the symbol.
pub proof fn lemma_row_types_what_it_shows(letter: char, hint: char, choice: usize)
    requires
        'a' <= letter <= 'z',
        choice < CHOICE_COUNT,
    ensures
        typed(spec_fired(letter, hint, choice)) == Some(
            seq![ascii_upper(letter), hint, ascii_lower(letter)][choice as int],
        ),
        spec_fired(letter, hint, DEFAULT_CHOICE) == KeyId::Literal(hint),
{
}

} // verus!
