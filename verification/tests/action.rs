use qingjian::action::{on_bar, on_key, repeats, toggle_tools, Act, BarHitId, KeyId, Panel};
use qingjian::command::Command;
use qingjian::touch::MotionAction;

#[test]
fn letters_go_to_the_engine() {
    assert_eq!(on_key(KeyId::Letter('a')), Act::Push('a'));
}

#[test]
fn the_editing_keys_map_to_their_own_actions() {
    assert_eq!(on_key(KeyId::Space), Act::CommitHighlighted);
    assert_eq!(on_key(KeyId::Enter), Act::CommitRaw);
    assert_eq!(on_key(KeyId::Backspace), Act::Backspace);
}

#[test]
fn the_mode_key_toggles_rather_than_pushing_something() {
    assert_eq!(on_key(KeyId::Mode), Act::ToggleMode);
}

#[test]
fn the_comma_key_hands_the_engine_the_half_width_character() {
    assert_eq!(on_key(KeyId::Comma), Act::Punctuate(','));
    assert_eq!(on_key(KeyId::Period), Act::Punctuate('.'));
}

#[test]
fn literals_go_through_the_punctuation_path() {
    assert_eq!(on_key(KeyId::Literal('7')), Act::Punctuate('7'));
    assert_eq!(on_key(KeyId::Literal('?')), Act::Punctuate('?'));
}

#[test]
fn panel_keys_switch_panels() {
    assert_eq!(
        on_key(KeyId::Panel(Panel::Digits)),
        Act::SwitchPanel(Panel::Digits)
    );
    assert_eq!(
        on_key(KeyId::Panel(Panel::Letters)),
        Act::SwitchPanel(Panel::Letters)
    );
}

#[test]
fn tool_slots_map_to_their_own_tools_and_the_empty_ones_do_nothing() {
    assert_eq!(on_key(KeyId::Tool(0)), Act::SwitchPanel(Panel::Clipboard));
    assert_eq!(on_key(KeyId::Tool(1)), Act::SwitchPanel(Panel::Emoji));
    assert_eq!(on_key(KeyId::Tool(2)), Act::SwitchPanel(Panel::Kaomoji));
    assert_eq!(on_key(KeyId::Tool(3)), Act::OpenSettings);
    assert_eq!(on_key(KeyId::Tool(4)), Act::Nothing);
    assert_eq!(on_key(KeyId::Tool(14)), Act::Nothing);
}

#[test]
fn bar_blocks_map_to_their_actions() {
    assert_eq!(on_bar(BarHitId::Candidate(0)), Act::CommitCandidate(0));
    assert_eq!(on_bar(BarHitId::Candidate(4)), Act::CommitCandidate(4));
    assert_eq!(on_bar(BarHitId::PagePrev), Act::Page(-1));
    assert_eq!(on_bar(BarHitId::PageNext), Act::Page(1));
    assert_eq!(on_bar(BarHitId::Clear), Act::Clear);
    assert_eq!(on_bar(BarHitId::Translation(0)), Act::CommitTranslation(0));
    assert_eq!(on_bar(BarHitId::Translation(1)), Act::CommitTranslation(1));
}

#[test]
fn the_clipboard_and_emoji_keys_carry_their_index() {
    assert_eq!(on_key(KeyId::Clipboard(3)), Act::PasteClipboard(3));
    assert_eq!(on_key(KeyId::ClipboardClear), Act::ClearClipboard);
    assert_eq!(on_key(KeyId::Emoji(7)), Act::Emoji(7));
    assert_eq!(on_key(KeyId::EmojiGroup(2)), Act::EmojiGroup(2));
    assert_eq!(on_key(KeyId::EmojiGroupPage(-1)), Act::EmojiGroupPage(-1));
    assert_eq!(on_key(KeyId::Shift), Act::ToggleShift);
    assert_eq!(on_bar(BarHitId::Tools), Act::ToggleTools);
}

#[test]
fn only_backspace_repeats_when_held() {
    assert!(repeats(KeyId::Backspace));
    for key in [KeyId::Space, KeyId::Enter, KeyId::Letter('a'), KeyId::Shift, KeyId::Comma] {
        assert!(!repeats(key), "{key:?} 按住不该连发");
    }
}

#[test]
fn the_tools_mark_opens_and_closes_the_tools_page() {
    assert_eq!(toggle_tools(Panel::Letters), Panel::Tools);
    assert_eq!(toggle_tools(Panel::Digits), Panel::Tools);
    assert_eq!(toggle_tools(Panel::Symbols), Panel::Tools);
    for sub in [Panel::Tools, Panel::Clipboard, Panel::Emoji, Panel::Kaomoji] {
        assert_eq!(toggle_tools(sub), Panel::Letters);
    }
    assert_eq!(toggle_tools(toggle_tools(Panel::Letters)), Panel::Letters);
}

#[test]
fn commands_cross_as_their_numbers() {
    assert_eq!(Command::Backspace.code(), 1);
    assert_eq!(Command::Enter.code(), 2);
    assert_eq!(Command::MoveLeft.code(), 3);
    assert_eq!(Command::MoveRight.code(), 4);
}

#[test]
fn motion_actions_follow_android_numbers() {
    assert_eq!(MotionAction::from_motion(0), MotionAction::Down);
    assert_eq!(MotionAction::from_motion(1), MotionAction::Up);
    assert_eq!(MotionAction::from_motion(2), MotionAction::Move);
    assert_eq!(MotionAction::from_motion(3), MotionAction::Cancel);
    assert_eq!(MotionAction::from_motion(5), MotionAction::PointerDown);
    assert_eq!(MotionAction::from_motion(6), MotionAction::PointerUp);
}

#[test]
fn an_unknown_motion_is_handled_as_a_lift() {
    assert_eq!(MotionAction::from_motion(7), MotionAction::Up);
    assert_eq!(MotionAction::from_motion(99), MotionAction::Up);
    assert_eq!(MotionAction::from_motion(-1), MotionAction::Up);
}
