//! What the preview bubble above a held key shows: it follows what lifting the finger would
//! actually do. Drawing it is the renderer's part.

use vstd::prelude::*;
use crate::action::KeyId;
use crate::presses::Press;
use crate::chooser::{ascii_lower, ascii_upper, to_ascii_lower, to_ascii_upper};

verus! {

/// The content of the preview bubble.
#[derive(Debug, Clone, Copy, PartialEq, Eq, Structural)]
pub enum PopupContent {
    /// The row of choices of a long-pressed letter key, with the chosen one marked.
    Choices { upper: char, symbol: char, lower: char, selected: usize },
    /// "Lift to clear" (Backspace swiped up).
    ClearHint,
    /// "Lift to delete" (a clipboard entry swiped left).
    DeleteHint,
    /// The key itself, enlarged.
    Key(KeyId),
}

/// What the bubble shows for the held `key` (whose corner holds `hint`): nothing on the
/// space bar (there is no character to show) or on a clipboard cell (the bubble would cover
/// the entries); the row of choices when it is open on a letter key with a corner symbol;
/// else the clear hint, the delete hint, or the key itself.
pub open spec fn spec_popup_content(
    key: KeyId,
    hint: Option<char>,
    choice: Option<usize>,
    clearing: bool,
    deleting: bool,
) -> Option<PopupContent> {
    match key {
        KeyId::Space => None,
        KeyId::Clipboard(_) => None,
        _ => Some(
            match (choice, key, hint) {
                (Some(selected), KeyId::Letter(letter), Some(symbol)) => PopupContent::Choices {
                    upper: ascii_upper(letter),
                    symbol,
                    lower: ascii_lower(letter),
                    selected,
                },
                _ => if clearing {
                    PopupContent::ClearHint
                } else if deleting {
                    PopupContent::DeleteHint
                } else {
                    PopupContent::Key(key)
                },
            },
        ),
    }
}

/// What the bubble shows (see [`spec_popup_content`]); `choice` is the chosen item while the
/// row of choices is open.
pub fn popup_content(
    key: KeyId,
    hint: Option<char>,
    choice: Option<usize>,
    clearing: bool,
    deleting: bool,
) -> (content: Option<PopupContent>)
    ensures
        content == spec_popup_content(key, hint, choice, clearing, deleting),
{
    match key {
        KeyId::Space => None,
        KeyId::Clipboard(_) => None,
        _ => Some(
            match (choice, key, hint) {
                (Some(selected), KeyId::Letter(letter), Some(symbol)) => PopupContent::Choices {
                    upper: to_ascii_upper(letter),
                    symbol,
                    lower: to_ascii_lower(letter),
                    selected,
                },
                _ => if clearing {
                    PopupContent::ClearHint
                } else if deleting {
                    PopupContent::DeleteHint
                } else {
                    PopupContent::Key(key)
                },
            },
        ),
    }
}

/// What the bubble shows for the press the key caps show as held (see
/// [`crate::presses::Fingers::shown`]): its key, its corner symbol, its chosen item while
/// the row of choices is open, and whether it is clearing or deleting (nothing without a key).
pub fn popup_of<G>(press: &Press<G>) -> (content: Option<PopupContent>)
    ensures
        content == match press.key {
            Some(key) => spec_popup_content(
                key,
                press.hint,
                if press.choosing { Some(press.choice) } else { None },
                press.clearing,
                press.deleting,
            ),
            None => None,
        },
{
    let key = match press.key {
        Some(k) => k,
        None => return None,
    };
    let choice = if press.choosing { Some(press.choice) } else { None };
    popup_content(key, press.hint, choice, press.clearing, press.deleting)
}

/// The bubble says what lifting will do: nothing on the space bar or a clipboard cell; an
/// open row on a letter key with a corner symbol shows upper case, symbol and lower case with
/// the chosen one marked; otherwise "lift to clear" while Backspace is swiped up, "lift to
/// delete" while an entry is swiped left, else the key itself.
pub proof fn lemma_bubble_says_what_lifting_does(
    key: KeyId,
    hint: Option<char>,
    choice: Option<usize>,
    clearing: bool,
    deleting: bool,
)
    ensures
        spec_popup_content(KeyId::Space, hint, choice, clearing, deleting) is None,
        key is Clipboard ==> spec_popup_content(key, hint, choice, clearing, deleting) is None,
        key is Letter && hint is Some && choice is Some ==> spec_popup_content(key, hint, choice, clearing, deleting)
            == Some(
            PopupContent::Choices {
                upper: ascii_upper(key->Letter_0),
                symbol: hint->0,
                lower: ascii_lower(key->Letter_0),
                selected: choice->0,
            },
        ),
        !(key is Space || key is Clipboard) && !(key is Letter && hint is Some && choice is Some) ==> {
            &&& clearing ==> spec_popup_content(key, hint, choice, clearing, deleting) == Some(PopupContent::ClearHint)
            &&& !clearing && deleting ==> spec_popup_content(key, hint, choice, clearing, deleting) == Some(
                PopupContent::DeleteHint,
            )
            &&& !clearing && !deleting ==> spec_popup_content(key, hint, choice, clearing, deleting) == Some(
                PopupContent::Key(key),
            )
        },
{
}

} // verus!
