use qingjian::action::KeyId;
use qingjian::popup::{popup_content, popup_of, PopupContent};
use qingjian::presses::{Press, Presses};

#[test]
fn the_space_bar_and_clipboard_cells_show_no_bubble() {
    assert_eq!(popup_content(KeyId::Space, None, None, false, false), None);
    assert_eq!(popup_content(KeyId::Clipboard(1), None, None, false, true), None);
}

#[test]
fn an_open_row_of_choices_shows_the_row() {
    assert_eq!(
        popup_content(KeyId::Letter('q'), Some('1'), Some(0), false, false),
        Some(PopupContent::Choices { upper: 'Q', symbol: '1', lower: 'q', selected: 0 })
    );
    // Without a corner symbol there is no row, only the key.
    assert_eq!(
        popup_content(KeyId::Letter('q'), None, Some(0), false, false),
        Some(PopupContent::Key(KeyId::Letter('q')))
    );
}

#[test]
fn the_bubble_says_what_lifting_will_do() {
    assert_eq!(popup_content(KeyId::Backspace, None, None, true, false), Some(PopupContent::ClearHint));
    assert_eq!(popup_content(KeyId::Emoji(3), None, None, false, true), Some(PopupContent::DeleteHint));
    assert_eq!(popup_content(KeyId::Enter, None, None, false, false), Some(PopupContent::Key(KeyId::Enter)));
}

#[test]
fn the_held_press_shows_its_row_once_it_opens() {
    let mut presses: Presses<()> = Presses::new();
    presses.down(Press::new(1, Some(KeyId::Letter('a')), Some('!'), ()));
    let held = presses.shown().expect("a key is held");
    assert_eq!(popup_of(held), Some(PopupContent::Key(KeyId::Letter('a'))));
    assert!(presses.begin_choice(1));
    let held = presses.shown().expect("a key is held");
    assert_eq!(
        popup_of(held),
        Some(PopupContent::Choices { upper: 'A', symbol: '!', lower: 'a', selected: 1 })
    );
    assert_eq!(popup_of(&Press::new(2, None, None, ())), None);
}
