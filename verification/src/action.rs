//! What a key, or a block of the candidate bar, asks for.
//!
//! The renderer only reports what was touched ([`KeyId`] / [`BarHitId`]); turning that into
//! an action ([`Act`]) happens here, carrying it out is the session's business. This layer is
//! pure translation: one key in, one action out, no engine state read or changed.

use vstd::prelude::*;

verus! {

/// The pages of the keyboard.
#[derive(Debug, Clone, Copy, PartialEq, Eq, Structural)]
pub enum Panel {
    /// The letters (where typing happens).
    Letters,
    /// Digits.
    Digits,
    /// Symbols.
    Symbols,
    /// The tools page (clipboard, emoji, kaomoji, settings).
    Tools,
    /// The clipboard history.
    Clipboard,
    /// Emoji.
    Emoji,
    /// Kaomoji.
    Kaomoji,
}

/// Which key a touch landed on.
#[derive(Debug, Clone, Copy, PartialEq, Eq, Structural)]
pub enum KeyId {
    /// A letter key.
    Letter(char),
    Space,
    Enter,
    Backspace,
    Shift,
    /// Chinese / English.
    Mode,
    /// The comma key (drawn full-width).
    Comma,
    /// The full stop key (drawn full-width).
    Period,
    /// A digit or symbol, as drawn on the key cap.
    Literal(char),
    /// A key that switches to another page.
    Panel(Panel),
    /// The n-th slot of the tools page.
    Tool(usize),
    /// The n-th clipboard cell on screen.
    Clipboard(usize),
    /// "Clear the clipboard history".
    ClipboardClear,
    /// The n-th emoji cell on screen.
    Emoji(usize),
    /// The n-th category tab of the emoji page.
    EmojiGroup(usize),
    /// Page the category tabs by this many steps.
    EmojiGroupPage(isize),
}

/// Which block of the candidate bar a touch landed on.
#[derive(Debug, Clone, Copy, PartialEq, Eq, Structural)]
pub enum BarHitId {
    /// The n-th candidate on this screen.
    Candidate(usize),
    /// The n-th translation under the highlighted candidate.
    Translation(usize),
    PagePrev,
    PageNext,
    /// The "clear the pinyin" button.
    Clear,
    /// The tools mark at the left end of the bar.
    Tools,
}

/// What an input event asks for. Only what to do; how depends on the engine's state when
/// the session carries it out.
#[derive(Debug, Clone, Copy, PartialEq, Eq, Structural)]
pub enum Act {
    /// Feed a letter to the engine.
    Push(char),
    /// Commit the n-th candidate on this screen.
    CommitCandidate(usize),
    /// Commit the highlighted candidate; with no candidate, hand the space itself over.
    CommitHighlighted,
    /// Commit the n-th translation of the highlighted candidate.
    CommitTranslation(usize),
    /// Commit the pinyin as typed; with no pinyin, hand Enter to the application.
    CommitRaw,
    /// Delete one letter; with no pinyin, hand Backspace to the application.
    Backspace,
    /// Clear the pinyin.
    Clear,
    /// Turn the page, forward when positive.
    Page(isize),
    ToggleShift,
    ToggleMode,
    /// Type a punctuation mark or digit, given half-width; the engine decides on full width.
    Punctuate(char),
    /// Switch the keyboard to another page.
    SwitchPanel(Panel),
    /// Open or close the tools page.
    ToggleTools,
    /// Accept the cloud's whole-sentence completion.
    AcceptPrediction,
    /// Open the settings page (the shell does it).
    OpenSettings,
    /// Nothing (the empty slots of the tools page).
    Nothing,
    /// Paste the n-th clipboard entry.
    PasteClipboard(usize),
    /// Delete the n-th clipboard entry.
    DeleteClipboard(usize),
    /// Clear the whole clipboard history.
    ClearClipboard,
    /// Commit the n-th emoji cell.
    Emoji(usize),
    /// Switch to the n-th emoji category.
    EmojiGroup(usize),
    /// Page the emoji category tabs.
    EmojiGroupPage(isize),
    /// Lock or unlock the clipboard (pasting then stays on the clipboard page).
    ToggleClipboardLock,
}

/// What touching `key` asks for.
pub open spec fn spec_on_key(key: KeyId) -> Act {
    match key {
        KeyId::Letter(c) => Act::Push(c),
        KeyId::Space => Act::CommitHighlighted,
        KeyId::Enter => Act::CommitRaw,
        KeyId::Backspace => Act::Backspace,
        KeyId::Shift => Act::ToggleShift,
        KeyId::Mode => Act::ToggleMode,
        KeyId::Comma => Act::Punctuate(','),
        KeyId::Period => Act::Punctuate('.'),
        KeyId::Literal(c) => Act::Punctuate(c),
        KeyId::Panel(panel) => Act::SwitchPanel(panel),
        KeyId::Tool(slot) => if slot == 0 {
            Act::SwitchPanel(Panel::Clipboard)
        } else if slot == 1 {
            Act::SwitchPanel(Panel::Emoji)
        } else if slot == 2 {
            Act::SwitchPanel(Panel::Kaomoji)
        } else if slot == 3 {
            Act::OpenSettings
        } else {
            Act::Nothing
        },
        KeyId::Clipboard(index) => Act::PasteClipboard(index),
        KeyId::ClipboardClear => Act::ClearClipboard,
        KeyId::Emoji(index) => Act::Emoji(index),
        KeyId::EmojiGroup(index) => Act::EmojiGroup(index),
        KeyId::EmojiGroupPage(step) => Act::EmojiGroupPage(step),
    }
}

/// What touching a key asks for. The comma and full stop keys are drawn full-width but
/// hand the engine the half-width character; whether it becomes full-width is the engine's
/// call. Tool slots 0 to 3 are clipboard, emoji, kaomoji and settings; the others are empty.
pub fn on_key(key: KeyId) -> (act: Act)
    ensures
        act == spec_on_key(key),
{
    match key {
        KeyId::Letter(c) => Act::Push(c),
        KeyId::Space => Act::CommitHighlighted,
        KeyId::Enter => Act::CommitRaw,
        KeyId::Backspace => Act::Backspace,
        KeyId::Shift => Act::ToggleShift,
        KeyId::Mode => Act::ToggleMode,
        KeyId::Comma => Act::Punctuate(','),
        KeyId::Period => Act::Punctuate('.'),
        KeyId::Literal(c) => Act::Punctuate(c),
        KeyId::Panel(panel) => Act::SwitchPanel(panel),
        KeyId::Tool(0) => Act::SwitchPanel(Panel::Clipboard),
        KeyId::Tool(1) => Act::SwitchPanel(Panel::Emoji),
        KeyId::Tool(2) => Act::SwitchPanel(Panel::Kaomoji),
        KeyId::Tool(3) => Act::OpenSettings,
        KeyId::Tool(_) => Act::Nothing,
        KeyId::Clipboard(index) => Act::PasteClipboard(index),
        KeyId::ClipboardClear => Act::ClearClipboard,
        KeyId::Emoji(index) => Act::Emoji(index),
        KeyId::EmojiGroup(index) => Act::EmojiGroup(index),
        KeyId::EmojiGroupPage(step) => Act::EmojiGroupPage(step),
    }
}

/// Whether holding `key` down repeats it: only Backspace does.
pub fn repeats(key: KeyId) -> (repeat: bool)
    ensures
        repeat == (key == KeyId::Backspace),
{
    match key {
        KeyId::Backspace => true,
        _ => false,
    }
}

/// What touching a block of the candidate bar asks for.
pub open spec fn spec_on_bar(id: BarHitId) -> Act {
    match id {
        BarHitId::Candidate(index) => Act::CommitCandidate(index),
        BarHitId::Translation(sense) => Act::CommitTranslation(sense),
        BarHitId::PagePrev => Act::Page(-1isize),
        BarHitId::PageNext => Act::Page(1isize),
        BarHitId::Clear => Act::Clear,
        BarHitId::Tools => Act::ToggleTools,
    }
}

/// What touching a block of the candidate bar asks for (candidate indices are on-screen).
pub fn on_bar(id: BarHitId) -> (act: Act)
    ensures
        act == spec_on_bar(id),
{
    match id {
        BarHitId::Candidate(index) => Act::CommitCandidate(index),
        BarHitId::Translation(sense) => Act::CommitTranslation(sense),
        BarHitId::PagePrev => Act::Page(-1),
        BarHitId::PageNext => Act::Page(1),
        BarHitId::Clear => Act::Clear,
        BarHitId::Tools => Act::ToggleTools,
    }
}

/// The page the tools mark leads to from `panel`: from the tools page or one of its
/// sub-pages back to the letters, from anywhere else to the tools page.
pub open spec fn spec_toggle_tools(panel: Panel) -> Panel {
    match panel {
        Panel::Tools | Panel::Clipboard | Panel::Emoji | Panel::Kaomoji => Panel::Letters,
        _ => Panel::Tools,
    }
}

/// The page the tools mark leads to (see [`spec_toggle_tools`]).
pub fn toggle_tools(panel: Panel) -> (next: Panel)
    ensures
        next == spec_toggle_tools(panel),
{
    match panel {
        Panel::Tools | Panel::Clipboard | Panel::Emoji | Panel::Kaomoji => Panel::Letters,
        _ => Panel::Tools,
    }
}

/// Touching the tools mark twice brings the keyboard back to where it was when that was
/// the tools page or the letters; from any other page two touches end on the tools page.
pub proof fn lemma_toggle_tools_twice(panel: Panel)
    ensures
        panel == Panel::Letters || panel == Panel::Tools ==> spec_toggle_tools(spec_toggle_tools(panel)) == panel,
        spec_toggle_tools(spec_toggle_tools(panel)) == Panel::Letters || spec_toggle_tools(
            spec_toggle_tools(panel),
        ) == Panel::Tools,
{
}

/// A key does what its cap shows: a letter is fed to the engine as it is; a digit or symbol
/// (and the comma and full stop keys, as half-width `,` and `.`) is typed as punctuation; a
/// page key switches to its own page; a clipboard, emoji or category cell acts on its own
/// index; the editing keys keep their meaning; the tools page holds clipboard, emoji,
/// kaomoji and settings in its first four slots and nothing after.
pub proof fn lemma_keys_do_what_they_show(c: char, panel: Panel, index: usize, step: isize)
    ensures
        spec_on_key(KeyId::Letter(c)) == Act::Push(c),
        spec_on_key(KeyId::Literal(c)) == Act::Punctuate(c),
        spec_on_key(KeyId::Comma) == Act::Punctuate(','),
        spec_on_key(KeyId::Period) == Act::Punctuate('.'),
        spec_on_key(KeyId::Panel(panel)) == Act::SwitchPanel(panel),
        spec_on_key(KeyId::Clipboard(index)) == Act::PasteClipboard(index),
        spec_on_key(KeyId::Emoji(index)) == Act::Emoji(index),
        spec_on_key(KeyId::EmojiGroup(index)) == Act::EmojiGroup(index),
        spec_on_key(KeyId::EmojiGroupPage(step)) == Act::EmojiGroupPage(step),
        spec_on_key(KeyId::ClipboardClear) == Act::ClearClipboard,
        spec_on_key(KeyId::Space) == Act::CommitHighlighted,
        spec_on_key(KeyId::Enter) == Act::CommitRaw,
        spec_on_key(KeyId::Backspace) == Act::Backspace,
        spec_on_key(KeyId::Shift) == Act::ToggleShift,
        spec_on_key(KeyId::Mode) == Act::ToggleMode,
        spec_on_key(KeyId::Tool(0)) == Act::SwitchPanel(Panel::Clipboard),
        spec_on_key(KeyId::Tool(1)) == Act::SwitchPanel(Panel::Emoji),
        spec_on_key(KeyId::Tool(2)) == Act::SwitchPanel(Panel::Kaomoji),
        spec_on_key(KeyId::Tool(3)) == Act::OpenSettings,
        index >= 4 ==> spec_on_key(KeyId::Tool(index)) == Act::Nothing,
{
}

/// A block of the candidate bar does what it shows: a candidate or translation commits the
/// one at its own index, the arrows turn one screen back (`‹`) or forward (`›`), and the
/// clear and tools marks clear the pinyin and toggle the tools page.
pub proof fn lemma_bar_blocks_do_what_they_show(index: usize)
    ensures
        spec_on_bar(BarHitId::Candidate(index)) == Act::CommitCandidate(index),
        spec_on_bar(BarHitId::Translation(index)) == Act::CommitTranslation(index),
        spec_on_bar(BarHitId::PagePrev) == Act::Page(-1isize),
        spec_on_bar(BarHitId::PageNext) == Act::Page(1isize),
        spec_on_bar(BarHitId::Clear) == Act::Clear,
        spec_on_bar(BarHitId::Tools) == Act::ToggleTools,
{
}

/// The tools mark leads from the tools page and each of its sub-pages (clipboard, emoji,
/// kaomoji) back to the letters, and from the letters, digits and symbols to the tools page.
pub proof fn lemma_tools_mark_targets()
    ensures
        spec_toggle_tools(Panel::Tools) == Panel::Letters,
        spec_toggle_tools(Panel::Clipboard) == Panel::Letters,
        spec_toggle_tools(Panel::Emoji) == Panel::Letters,
        spec_toggle_tools(Panel::Kaomoji) == Panel::Letters,
        spec_toggle_tools(Panel::Letters) == Panel::Tools,
        spec_toggle_tools(Panel::Digits) == Panel::Tools,
        spec_toggle_tools(Panel::Symbols) == Panel::Tools,
{
}

} // verus!
