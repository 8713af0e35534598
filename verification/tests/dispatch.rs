use qingjian::action::{on_key, Act, KeyId, Panel};
use qingjian::command::Command;
use qingjian::dispatch::{letter, on_back, page_target, Back, plan, punctuated, Context, InputMode, Modes, Plan, ShiftState};

fn chinese() -> Modes {
    Modes {
        shift: ShiftState::Off,
        mode: InputMode::Chinese,
        panel: Panel::Letters,
        english_candidates: true,
        clipboard_locked: false,
    }
}

fn idle() -> Context {
    Context { composing: false, highlighted: false, first_visible: 0, emoji_group: 0 }
}

fn composing() -> Context {
    Context { composing: true, highlighted: true, first_visible: 0, emoji_group: 0 }
}

#[test]
fn space_with_no_candidate_types_a_space() {
    assert_eq!(plan(on_key(KeyId::Space), chinese(), idle()).1, Plan::Direct(' '));
    assert_eq!(plan(on_key(KeyId::Space), chinese(), composing()).1, Plan::CommitHighlighted);
}

#[test]
fn enter_and_backspace_without_pinyin_go_to_the_app() {
    assert_eq!(plan(Act::CommitRaw, chinese(), idle()).1, Plan::Key(Command::Enter));
    assert_eq!(plan(Act::Backspace, chinese(), idle()).1, Plan::Key(Command::Backspace));
    assert_eq!(plan(Act::CommitRaw, chinese(), composing()).1, Plan::CommitComposition);
    assert_eq!(plan(Act::Backspace, chinese(), composing()).1, Plan::DeleteLetter);
}

#[test]
fn a_tapped_candidate_counts_from_the_leftmost_on_screen() {
    let now = Context { first_visible: 12, ..composing() };
    assert_eq!(plan(Act::CommitCandidate(3), chinese(), now).1, Plan::CommitCandidate(15));
    let far = Context { first_visible: usize::MAX, ..composing() };
    assert_eq!(plan(Act::CommitCandidate(1), chinese(), far).1, Plan::Done);
}

#[test]
fn shift_changes_the_case_in_english_only() {
    let (shifted, redraw) = plan(Act::ToggleShift, chinese(), idle());
    assert_eq!(redraw, Plan::Redraw);
    assert_eq!(shifted.shift, ShiftState::Locked);
    assert_eq!(letter('A', shifted), Plan::Compose('a'));
    let english = Modes { mode: InputMode::English, ..shifted };
    assert_eq!(letter('a', english), Plan::Compose('A'));
    let lower = Modes { shift: ShiftState::Off, ..english };
    assert_eq!(letter('Q', lower), Plan::Compose('q'));
}

#[test]
fn english_without_a_word_list_types_straight_through() {
    let english = Modes { mode: InputMode::English, english_candidates: false, ..chinese() };
    assert_eq!(plan(Act::Push('k'), english, idle()).1, Plan::Direct('k'));
}

#[test]
fn the_mode_key_goes_to_english_and_back() {
    let (english, step) = plan(Act::ToggleMode, chinese(), composing());
    assert_eq!(english.mode, InputMode::English);
    assert_eq!(step, Plan::SwitchMode { english_engine: true });
    let (back, step) = plan(Act::ToggleMode, english, idle());
    assert_eq!(back, chinese());
    assert_eq!(step, Plan::SwitchMode { english_engine: false });
}

#[test]
fn punctuation_commits_the_word_first_and_is_half_width_in_english() {
    assert_eq!(
        plan(Act::Punctuate(','), chinese(), composing()).1,
        Plan::Punctuate { flush: true, ask_engine: true, c: ',' }
    );
    assert_eq!(
        plan(Act::Punctuate(','), chinese(), idle()).1,
        Plan::Punctuate { flush: false, ask_engine: true, c: ',' }
    );
    let english = Modes { mode: InputMode::English, ..chinese() };
    assert_eq!(
        plan(Act::Punctuate('.'), english, idle()).1,
        Plan::Punctuate { flush: false, ask_engine: false, c: '.' }
    );
}

#[test]
fn the_engine_answer_decides_the_width() {
    assert_eq!(punctuated(',', Some("，")), ("，".to_owned(), false));
    assert_eq!(punctuated('7', None), ("7".to_owned(), true));
}

#[test]
fn leaving_the_clipboard_page_unlocks_it() {
    let on_clipboard = Modes { panel: Panel::Clipboard, ..chinese() };
    let (locked, step) = plan(Act::ToggleClipboardLock, on_clipboard, idle());
    assert!(locked.clipboard_locked);
    assert_eq!(step, Plan::Redraw);
    assert_eq!(
        plan(Act::PasteClipboard(2), locked, idle()).1,
        Plan::PasteClipboard { cell: 2, back_to_letters: false }
    );
    let (left, step) = plan(Act::SwitchPanel(Panel::Letters), locked, idle());
    assert_eq!(step, Plan::ShowPanel(Panel::Letters));
    assert!(!left.clipboard_locked);
    assert_eq!(plan(Act::SwitchPanel(Panel::Letters), left, idle()).1, Plan::Done);
}

#[test]
fn the_tools_mark_switches_the_keyboard_page() {
    let (tools, step) = plan(Act::ToggleTools, chinese(), idle());
    assert_eq!(tools.panel, Panel::Tools);
    assert_eq!(step, Plan::ShowPanel(Panel::Tools));
    let (back, _) = plan(Act::ToggleTools, tools, idle());
    assert_eq!(back.panel, Panel::Letters);
}

#[test]
fn the_kaomoji_button_toggles_recent_and_all() {
    let kaomoji = Modes { panel: Panel::Kaomoji, ..chinese() };
    let on_all = Context { emoji_group: 1, ..idle() };
    assert_eq!(plan(Act::EmojiGroup(0), kaomoji, on_all).1, Plan::EmojiGroup(0));
    let on_recent = Context { emoji_group: 0, ..idle() };
    assert_eq!(plan(Act::EmojiGroup(0), kaomoji, on_recent).1, Plan::EmojiGroup(1));
    let emoji = Modes { panel: Panel::Emoji, ..chinese() };
    assert_eq!(plan(Act::EmojiGroup(4), emoji, on_recent).1, Plan::EmojiGroup(4));
}

#[test]
fn paging_stops_at_the_first_and_the_last_screen() {
    assert_eq!(page_target(1, 1, 4), 2);
    assert_eq!(page_target(4, 1, 4), 4);
    assert_eq!(page_target(1, -1, 4), 1);
    assert_eq!(page_target(3, -5, 4), 1);
    assert_eq!(page_target(2, 10, 4), 4);
    assert_eq!(page_target(1, 1, 1), 1);
}

#[test]
fn back_closes_the_innermost_thing_open() {
    assert_eq!(on_back(true, Panel::Emoji), Back::CloseExpanded);
    assert_eq!(on_back(false, Panel::Emoji), Back::ToLetters);
    assert_eq!(on_back(false, Panel::Tools), Back::ToLetters);
    assert_eq!(on_back(false, Panel::Letters), Back::NotOurs);
}
