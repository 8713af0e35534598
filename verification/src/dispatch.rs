//! How the session carries out an [`Act`], as far as the engine's answers do not decide it.
//!
//! The session keeps a few modes of its own (shift, Chinese or English, the keyboard page,
//! the clipboard lock); an act may change them, and leaves a [`Plan`]: what the engine, or
//! the panels drawn in floating point, still have to do. Whether the pinyin is empty and
//! whether a candidate is highlighted come in as a [`Context`], read off the engine first.

use vstd::prelude::*;
use crate::action::{Act, Panel};
use crate::chooser::{ascii_lower, ascii_upper, to_ascii_lower, to_ascii_upper};
use crate::command::Command;
use crate::text::push_char;

verus! {

/// The shift key on a touch keyboard: a tap locks it, the next tap unlocks it.
#[derive(Debug, Clone, Copy, PartialEq, Eq, Structural)]
pub enum ShiftState {
    Off,
    Locked,
}

/// Which language the letters are typed in.
#[derive(Debug, Clone, Copy, PartialEq, Eq, Structural)]
pub enum InputMode {
    Chinese,
    English,
}

/// The modes the session keeps between events.
#[derive(Debug, Clone, Copy, PartialEq, Eq, Structural)]
pub struct Modes {
    pub shift: ShiftState,
    pub mode: InputMode,
    /// The page the keyboard shows.
    pub panel: Panel,
    /// An English word list is loaded: English letters are composed into words
    /// (completion, spelling fixes) rather than typed straight through.
    pub english_candidates: bool,
    /// Pasting from the clipboard page stays on that page.
    pub clipboard_locked: bool,
}

/// What the session reads off the engine and the screen before carrying out an act.
#[derive(Debug, Clone, Copy, PartialEq, Eq, Structural)]
pub struct Context {
    /// Pinyin (or an English word) is being composed.
    pub composing: bool,
    /// A candidate is highlighted (the one Space commits).
    pub highlighted: bool,
    /// The index, in the whole candidate list, of the leftmost candidate on screen.
    pub first_visible: usize,
    /// The category of the emoji page on screen.
    pub emoji_group: usize,
}

/// What is left to do after an act has changed the session's modes.
#[derive(Debug, Clone, Copy, PartialEq, Eq, Structural)]
pub enum Plan {
    /// Nothing more.
    Done,
    /// Only the keyboard must be drawn again (its caps or lock changed).
    Redraw,
    /// Feed the character to the composition and look the candidates up again.
    Compose(char),
    /// Hand the character straight to the application, telling the engine it passed through.
    Direct(char),
    /// Commit the candidate at this index of the whole list, if there is one.
    CommitCandidate(usize),
    /// Commit the highlighted candidate.
    CommitHighlighted,
    /// Commit this translation of the highlighted candidate, if it has one.
    CommitTranslation(usize),
    /// Commit the composition as typed.
    CommitComposition,
    /// Delete the last letter of the composition.
    DeleteLetter,
    /// Drop the composition.
    ClearComposition,
    /// Hand this key to the application.
    Key(Command),
    /// Turn the candidate bar by this many screens.
    TurnPage(isize),
    /// Type a punctuation mark: first commit the highlighted candidate when `flush`;
    /// then, when `ask_engine`, let the engine choose its width, else type it as it is.
    Punctuate { flush: bool, ask_engine: bool, c: char },
    /// The mode changed: drop the composition and tell the engine whether it now composes
    /// English words.
    SwitchMode { english_engine: bool },
    /// The keyboard moved to this page: lay it out and reset that page's scrolling.
    ShowPanel(Panel),
    /// Accept the cloud's whole-sentence completion.
    AcceptPrediction,
    /// Ask the shell for the settings page.
    OpenSettings,
    /// Paste the clipboard entry in this cell, then go back to the letters when told.
    PasteClipboard { cell: usize, back_to_letters: bool },
    /// Delete the clipboard entry in this cell.
    DeleteClipboard(usize),
    /// A tap on "clear the clipboard" (the first one only arms it).
    ClearClipboard,
    /// Commit the emoji in this cell.
    CommitEmoji(usize),
    /// Show the first page of this emoji category.
    EmojiGroup(usize),
}

/// The shift state after a tap on Shift.
pub open spec fn toggled_shift(shift: ShiftState) -> ShiftState {
    match shift {
        ShiftState::Off => ShiftState::Locked,
        ShiftState::Locked => ShiftState::Off,
    }
}

/// The language after a tap on the mode key.
pub open spec fn toggled_mode(mode: InputMode) -> InputMode {
    match mode {
        InputMode::Chinese => InputMode::English,
        InputMode::English => InputMode::Chinese,
    }
}

/// The modes after the keyboard is sent to `panel`: the clipboard lock only holds on the
/// clipboard page.
pub open spec fn on_panel(modes: Modes, panel: Panel) -> Modes {
    Modes {
        panel,
        clipboard_locked: if panel == Panel::Clipboard { modes.clipboard_locked } else { false },
        ..modes
    }
}

/// Sending the keyboard to `panel`: nothing when it is there already.
pub open spec fn spec_switch(modes: Modes, panel: Panel) -> (Modes, Plan) {
    if panel == modes.panel {
        (modes, Plan::Done)
    } else {
        (on_panel(modes, panel), Plan::ShowPanel(panel))
    }
}

/// A letter key: in Chinese the lower-case letter is composed (Shift only changes the caps);
/// in English the case follows Shift, and the letter is composed into a word when a word
/// list is loaded, typed straight through otherwise.
pub open spec fn spec_letter(c: char, modes: Modes) -> Plan {
    match modes.mode {
        InputMode::Chinese => Plan::Compose(ascii_lower(c)),
        InputMode::English => {
            let cased = if modes.shift == ShiftState::Locked {
                ascii_upper(c)
            } else {
                ascii_lower(c)
            };
            if modes.english_candidates {
                Plan::Compose(cased)
            } else {
                Plan::Direct(cased)
            }
        },
    }
}

/// The category the kaomoji page's one button leads to: it toggles between the recent
/// ones (category 0) and all of them (category 1).
pub open spec fn kaomoji_target(current: usize, index: usize) -> usize {
    let target: usize = if current == 0 { 1 } else { 0 };
    let asked: usize = if index < 1 { index } else { 1 };
    if target < asked { asked } else { target }
}

/// What an act does to the modes, and what is left to do.
pub open spec fn spec_plan(act: Act, modes: Modes, now: Context) -> (Modes, Plan) {
    match act {
        Act::Push(c) => (modes, spec_letter(c, modes)),
        Act::CommitCandidate(index) => (
            modes,
            if now.first_visible + index <= usize::MAX {
                Plan::CommitCandidate((now.first_visible + index) as usize)
            } else {
                Plan::Done
            },
        ),
        Act::CommitHighlighted => (
            modes,
            if now.highlighted {
                Plan::CommitHighlighted
            } else {
                Plan::Direct(' ')
            },
        ),
        Act::CommitTranslation(sense) => (modes, Plan::CommitTranslation(sense)),
        Act::CommitRaw => (
            modes,
            if now.composing {
                Plan::CommitComposition
            } else {
                Plan::Key(Command::Enter)
            },
        ),
        Act::Backspace => (
            modes,
            if now.composing {
                Plan::DeleteLetter
            } else {
                Plan::Key(Command::Backspace)
            },
        ),
        Act::Clear => (modes, Plan::ClearComposition),
        Act::Page(step) => (modes, Plan::TurnPage(step)),
        Act::ToggleShift => (Modes { shift: toggled_shift(modes.shift), ..modes }, Plan::Redraw),
        Act::ToggleMode => {
            let mode = toggled_mode(modes.mode);
            (
                Modes { mode, ..modes },
                Plan::SwitchMode {
                    english_engine: mode == InputMode::English && modes.english_candidates,
                },
            )
        },
        Act::Punctuate(c) => (
            modes,
            Plan::Punctuate {
                flush: now.composing && now.highlighted,
                ask_engine: modes.mode == InputMode::Chinese,
                c,
            },
        ),
        Act::SwitchPanel(panel) => spec_switch(modes, panel),
        Act::ToggleTools => spec_switch(modes, crate::action::spec_toggle_tools(modes.panel)),
        Act::AcceptPrediction => (modes, Plan::AcceptPrediction),
        Act::OpenSettings => (modes, Plan::OpenSettings),
        Act::Nothing => (modes, Plan::Done),
        Act::PasteClipboard(cell) => (
            modes,
            Plan::PasteClipboard { cell, back_to_letters: !modes.clipboard_locked },
        ),
        Act::DeleteClipboard(cell) => (modes, Plan::DeleteClipboard(cell)),
        Act::ClearClipboard => (modes, Plan::ClearClipboard),
        Act::ToggleClipboardLock => (
            Modes { clipboard_locked: !modes.clipboard_locked, ..modes },
            Plan::Redraw,
        ),
        Act::Emoji(cell) => (modes, Plan::CommitEmoji(cell)),
        Act::EmojiGroup(index) => (
            modes,
            if modes.panel == Panel::Kaomoji {
                Plan::EmojiGroup(kaomoji_target(now.emoji_group, index))
            } else {
                Plan::EmojiGroup(index)
            },
        ),
        Act::EmojiGroupPage(_) => (modes, Plan::Done),
    }
}

/// The keyboard page after a tap on `panel`'s key (see [`spec_switch`]).
fn switch(modes: Modes, panel: Panel) -> (next: (Modes, Plan))
    ensures
        next == spec_switch(modes, panel),
{
    if panel == modes.panel {
        (modes, Plan::Done)
    } else {
        let locked = if panel == Panel::Clipboard {
            modes.clipboard_locked
        } else {
            false
        };
        (Modes { panel, clipboard_locked: locked, ..modes }, Plan::ShowPanel(panel))
    }
}

/// What a letter key does (see [`spec_letter`]).
pub fn letter(c: char, modes: Modes) -> (plan: Plan)
    ensures
        plan == spec_letter(c, modes),
{
    match modes.mode {
        InputMode::Chinese => Plan::Compose(to_ascii_lower(c)),
        InputMode::English => {
            let cased = match modes.shift {
                ShiftState::Locked => to_ascii_upper(c),
                ShiftState::Off => to_ascii_lower(c),
            };
            if modes.english_candidates {
                Plan::Compose(cased)
            } else {
                Plan::Direct(cased)
            }
        },
    }
}

/// Carries out the part of `act` that the engine has no say in: the new modes, and the
/// [`Plan`] for the rest. With no pinyin, Enter and Backspace go to the application;
/// with no candidate, Space is a space. Tapped candidates are counted from the leftmost
/// one on screen. The emoji-tab paging act does nothing: every tab fits on the row.
pub fn plan(act: Act, modes: Modes, now: Context) -> (next: (Modes, Plan))
    ensures
        next == spec_plan(act, modes, now),
{
    match act {
        Act::Push(c) => (modes, letter(c, modes)),
        Act::CommitCandidate(index) => (
            modes,
            match now.first_visible.checked_add(index) {
                Some(whole) => Plan::CommitCandidate(whole),
                None => Plan::Done,
            },
        ),
        Act::CommitHighlighted => (
            modes,
            if now.highlighted {
                Plan::CommitHighlighted
            } else {
                Plan::Direct(' ')
            },
        ),
        Act::CommitTranslation(sense) => (modes, Plan::CommitTranslation(sense)),
        Act::CommitRaw => (
            modes,
            if now.composing {
                Plan::CommitComposition
            } else {
                Plan::Key(Command::Enter)
            },
        ),
        Act::Backspace => (
            modes,
            if now.composing {
                Plan::DeleteLetter
            } else {
                Plan::Key(Command::Backspace)
            },
        ),
        Act::Clear => (modes, Plan::ClearComposition),
        Act::Page(step) => (modes, Plan::TurnPage(step)),
        Act::ToggleShift => {
            let shift = match modes.shift {
                ShiftState::Off => ShiftState::Locked,
                ShiftState::Locked => ShiftState::Off,
            };
            (Modes { shift, ..modes }, Plan::Redraw)
        },
        Act::ToggleMode => {
            let mode = match modes.mode {
                InputMode::Chinese => InputMode::English,
                InputMode::English => InputMode::Chinese,
            };
            let english = match mode {
                InputMode::English => modes.english_candidates,
                InputMode::Chinese => false,
            };
            (Modes { mode, ..modes }, Plan::SwitchMode { english_engine: english })
        },
        Act::Punctuate(c) => {
            let chinese = match modes.mode {
                InputMode::Chinese => true,
                InputMode::English => false,
            };
            (modes, Plan::Punctuate { flush: now.composing && now.highlighted, ask_engine: chinese, c })
        },
        Act::SwitchPanel(panel) => switch(modes, panel),
        Act::ToggleTools => switch(modes, crate::action::toggle_tools(modes.panel)),
        Act::AcceptPrediction => (modes, Plan::AcceptPrediction),
        Act::OpenSettings => (modes, Plan::OpenSettings),
        Act::Nothing => (modes, Plan::Done),
        Act::PasteClipboard(cell) => (
            modes,
            Plan::PasteClipboard { cell, back_to_letters: !modes.clipboard_locked },
        ),
        Act::DeleteClipboard(cell) => (modes, Plan::DeleteClipboard(cell)),
        Act::ClearClipboard => (modes, Plan::ClearClipboard),
        Act::ToggleClipboardLock => (
            Modes { clipboard_locked: !modes.clipboard_locked, ..modes },
            Plan::Redraw,
        ),
        Act::Emoji(cell) => (modes, Plan::CommitEmoji(cell)),
        Act::EmojiGroup(index) => {
            let kaomoji = match modes.panel {
                Panel::Kaomoji => true,
                _ => false,
            };
            if kaomoji {
                let target: usize = if now.emoji_group == 0 { 1 } else { 0 };
                let asked: usize = if index < 1 { index } else { 1 };
                let group: usize = if target < asked { asked } else { target };
                (modes, Plan::EmojiGroup(group))
            } else {
                (modes, Plan::EmojiGroup(index))
            }
        },
        Act::EmojiGroupPage(_) => (modes, Plan::Done),
    }
}

/// Tapping Shift twice, or the mode key twice, leaves the modes as they were.
pub proof fn lemma_toggles_undo(modes: Modes, first: Context, second: Context)
    ensures
        spec_plan(Act::ToggleShift, spec_plan(Act::ToggleShift, modes, first).0, second).0 == modes,
        spec_plan(Act::ToggleMode, spec_plan(Act::ToggleMode, modes, first).0, second).0 == modes,
{
}

/// The clipboard lock only ever holds on the clipboard page: leaving the page unlocks it,
/// and no act but the lock key itself (which only the clipboard page shows) sets it.
pub proof fn lemma_lock_stays_on_clipboard(act: Act, modes: Modes, now: Context)
    requires
        modes.clipboard_locked ==> modes.panel == Panel::Clipboard,
        act == Act::ToggleClipboardLock ==> modes.panel == Panel::Clipboard,
    ensures
        spec_plan(act, modes, now).0.clipboard_locked ==> spec_plan(act, modes, now).0.panel
            == Panel::Clipboard,
{
}

/// The screen of the candidate bar that turning `step` screens from screen `screen` lands
/// on (screens count from 1): kept between the first and the last of `screens`.
pub open spec fn spec_page_target(screen: int, step: int, screens: int) -> int {
    if screen + step < 1 {
        1
    } else if screen + step > screens {
        screens
    } else {
        screen + step
    }
}

/// Where a [`Plan::TurnPage`] lands (see [`spec_page_target`]); `screens` is at least one.
pub fn page_target(screen: usize, step: isize, screens: usize) -> (target: usize)
    requires
        1 <= screens <= isize::MAX,
        screen <= isize::MAX,
    ensures
        target == spec_page_target(screen as int, step as int, screens as int),
{
    let wanted: i128 = screen as i128 + step as i128;
    if wanted < 1 {
        1
    } else if wanted > screens as i128 {
        screens
    } else {
        wanted as usize
    }
}

/// What the Back key does while the keyboard is up.
#[derive(Debug, Clone, Copy, PartialEq, Eq, Structural)]
pub enum Back {
    /// Close the expanded candidate panel.
    CloseExpanded,
    /// Go back to the letters page.
    ToLetters,
    /// Nothing of ours is open: the application gets the Back key.
    NotOurs,
}

/// The Back key closes what the keyboard has open, innermost first: the expanded candidate
/// panel, else any page other than the letters; with neither open it is not the keyboard's.
pub fn on_back(expanded: bool, panel: Panel) -> (back: Back)
    ensures
        back == (if expanded {
            Back::CloseExpanded
        } else if panel != Panel::Letters {
            Back::ToLetters
        } else {
            Back::NotOurs
        }),
{
    if expanded {
        Back::CloseExpanded
    } else {
        match panel {
            Panel::Letters => Back::NotOurs,
            _ => Back::ToLetters,
        }
    }
}

/// Turning the bar never leaves its screens: the target is one of them, the arrows stop at
/// the first and the last screen, and a turn within range moves by exactly `step`.
pub proof fn lemma_paging_stays_in_range(screen: int, step: int, screens: int)
    requires
        1 <= screens,
        1 <= screen <= screens,
    ensures
        1 <= spec_page_target(screen, step, screens) <= screens,
        spec_page_target(screens, 1, screens) == screens,
        spec_page_target(1, -1, screens) == 1,
        1 <= screen + step <= screens ==> spec_page_target(screen, step, screens) == screen + step,
{
}

/// An act that names something (a step, a cell, a translation, a mark) hands exactly that
/// on: the page turn keeps the requested step and its sign; the cell pasted, deleted or
/// committed is the one tapped; a tapped candidate is counted from the leftmost one on
/// screen; pasting goes back to the letters exactly when the clipboard is not locked.
pub proof fn lemma_plan_hands_on_what_the_act_names(
    modes: Modes,
    now: Context,
    step: isize,
    index: usize,
    c: char,
)
    ensures
        spec_plan(Act::Page(step), modes, now) == (modes, Plan::TurnPage(step)),
        spec_plan(Act::CommitTranslation(index), modes, now) == (modes, Plan::CommitTranslation(index)),
        spec_plan(Act::PasteClipboard(index), modes, now) == (
            modes,
            Plan::PasteClipboard { cell: index, back_to_letters: !modes.clipboard_locked },
        ),
        spec_plan(Act::DeleteClipboard(index), modes, now) == (modes, Plan::DeleteClipboard(index)),
        spec_plan(Act::Emoji(index), modes, now) == (modes, Plan::CommitEmoji(index)),
        now.first_visible + index <= usize::MAX ==> spec_plan(Act::CommitCandidate(index), modes, now) == (
            modes,
            Plan::CommitCandidate((now.first_visible + index) as usize),
        ),
        spec_plan(Act::Punctuate(c), modes, now) == (
            modes,
            Plan::Punctuate {
                flush: now.composing && now.highlighted,
                ask_engine: modes.mode == InputMode::Chinese,
                c,
            },
        ),
        spec_plan(Act::Clear, modes, now) == (modes, Plan::ClearComposition),
        spec_plan(Act::ClearClipboard, modes, now) == (modes, Plan::ClearClipboard),
        spec_plan(Act::AcceptPrediction, modes, now) == (modes, Plan::AcceptPrediction),
        spec_plan(Act::OpenSettings, modes, now) == (modes, Plan::OpenSettings),
        spec_plan(Act::Nothing, modes, now) == (modes, Plan::Done),
        spec_plan(Act::EmojiGroupPage(step), modes, now) == (modes, Plan::Done),
{
}

/// What depends on the pinyin: with some, Enter commits it as typed and Backspace deletes
/// its last letter; with none, both keys go to the application. Space commits the
/// highlighted candidate, or types a space when there is none.
pub proof fn lemma_editing_keys_follow_the_pinyin(modes: Modes, now: Context)
    ensures
        spec_plan(Act::CommitRaw, modes, now) == (modes, if now.composing {
            Plan::CommitComposition
        } else {
            Plan::Key(Command::Enter)
        }),
        spec_plan(Act::Backspace, modes, now) == (modes, if now.composing {
            Plan::DeleteLetter
        } else {
            Plan::Key(Command::Backspace)
        }),
        spec_plan(Act::CommitHighlighted, modes, now) == (modes, if now.highlighted {
            Plan::CommitHighlighted
        } else {
            Plan::Direct(' ')
        }),
{
}

/// Only the shift, mode, page, tools and lock keys change the modes; every other act
/// leaves them as they were.
pub proof fn lemma_only_mode_keys_change_modes(act: Act, modes: Modes, now: Context)
    requires
        !(act is ToggleShift || act is ToggleMode || act is SwitchPanel || act is ToggleTools
            || act is ToggleClipboardLock),
    ensures
        spec_plan(act, modes, now).0 == modes,
{
}

/// Shift flips between off and locked and the mode key between Chinese and English, each
/// leaving every other mode alone; after the mode key the engine composes English words
/// exactly when the mode is now English and a word list is loaded. The lock key flips the
/// clipboard lock alone.
pub proof fn lemma_toggles_flip_one_mode(modes: Modes, now: Context)
    ensures
        spec_plan(Act::ToggleShift, modes, now).0.shift != modes.shift,
        spec_plan(Act::ToggleShift, modes, now) == (
            Modes { shift: spec_plan(Act::ToggleShift, modes, now).0.shift, ..modes },
            Plan::Redraw,
        ),
        spec_plan(Act::ToggleMode, modes, now).0.mode != modes.mode,
        spec_plan(Act::ToggleMode, modes, now) == (
            Modes { mode: spec_plan(Act::ToggleMode, modes, now).0.mode, ..modes },
            Plan::SwitchMode {
                english_engine: modes.mode == InputMode::Chinese && modes.english_candidates,
            },
        ),
        spec_plan(Act::ToggleClipboardLock, modes, now) == (
            Modes { clipboard_locked: !modes.clipboard_locked, ..modes },
            Plan::Redraw,
        ),
{
}

/// A page key sends the keyboard to that very page (nothing to do when it is there
/// already); leaving the clipboard page unlocks the clipboard, and no other mode changes.
pub proof fn lemma_page_keys_go_to_their_page(modes: Modes, now: Context, panel: Panel)
    ensures
        panel == modes.panel ==> spec_plan(Act::SwitchPanel(panel), modes, now) == (modes, Plan::Done),
        panel != modes.panel ==> spec_plan(Act::SwitchPanel(panel), modes, now) == (
            Modes {
                panel,
                clipboard_locked: panel == Panel::Clipboard && modes.clipboard_locked,
                ..modes
            },
            Plan::ShowPanel(panel),
        ),
{
}

/// Letters: in Chinese the lower-case letter is composed whatever Shift says; in English the
/// letter takes Shift's case, and goes into a word when a word list is loaded, straight to
/// the application otherwise.
pub proof fn lemma_letters_follow_mode_and_shift(modes: Modes, now: Context, c: char)
    ensures
        modes.mode == InputMode::Chinese ==> spec_plan(Act::Push(c), modes, now) == (
            modes,
            Plan::Compose(ascii_lower(c)),
        ),
        modes.mode == InputMode::English && modes.english_candidates ==> spec_plan(Act::Push(c), modes, now) == (
            modes,
            Plan::Compose(if modes.shift == ShiftState::Locked { ascii_upper(c) } else { ascii_lower(c) }),
        ),
        modes.mode == InputMode::English && !modes.english_candidates ==> spec_plan(Act::Push(c), modes, now) == (
            modes,
            Plan::Direct(if modes.shift == ShiftState::Locked { ascii_upper(c) } else { ascii_lower(c) }),
        ),
{
}

/// A category tab shows its own category; on the kaomoji page the one button switches
/// between the recent ones (category 0) and all of them (category 1).
pub proof fn lemma_category_tabs(modes: Modes, now: Context, index: usize)
    ensures
        modes.panel != Panel::Kaomoji ==> spec_plan(Act::EmojiGroup(index), modes, now) == (
            modes,
            Plan::EmojiGroup(index),
        ),
        modes.panel == Panel::Kaomoji && index == 0 ==> spec_plan(Act::EmojiGroup(index), modes, now) == (
            modes,
            Plan::EmojiGroup(if now.emoji_group == 0 { 1 } else { 0 }),
        ),
        modes.panel == Panel::Kaomoji && index >= 1 ==> spec_plan(Act::EmojiGroup(index), modes, now) == (
            modes,
            Plan::EmojiGroup(1),
        ),
{
}

/// The text a punctuation mark types once the engine has answered: its full-width form when
/// the engine gave one, else the mark itself (and then it passed through).
pub fn punctuated(c: char, answer: Option<&str>) -> (typed: (String, bool))
    ensures
        typed.0@ == (match answer {
            Some(text) => text@,
            None => seq![c],
        }),
        typed.1 == answer.is_none(),
{
    match answer {
        Some(text) => (text.to_owned(), false),
        None => {
            let mut text = String::new();
            push_char(&mut text, c);
            (text, true)
        },
    }
}

} // verus!
