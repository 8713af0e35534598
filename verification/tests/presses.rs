use qingjian::action::KeyId;
use qingjian::presses::{moved, release, slid_off, Motion, MoveFire, Press, Presses, Release};

fn down(presses: &mut Presses<()>, pointer: i32, key: KeyId, hint: Option<char>) {
    presses.down(Press::new(pointer, Some(key), hint, ()));
}

#[test]
fn two_fingers_overlapping_keep_their_own_keys() {
    let mut presses: Presses<()> = Presses::new();
    down(&mut presses, 1, KeyId::Letter('a'), None);
    down(&mut presses, 2, KeyId::Letter('s'), None);
    let first = presses.up(1).expect("第一根手指还在");
    assert_eq!(release(&first, true), Some(Release::Key(KeyId::Letter('a'))));
    let second = presses.up(2).expect("第二根手指还在");
    assert_eq!(release(&second, true), Some(Release::Key(KeyId::Letter('s'))));
    assert!(presses.up(2).is_none());
}

#[test]
fn the_same_pointer_going_down_again_replaces_its_record() {
    let mut presses: Presses<u8> = Presses::new();
    presses.down(Press::new(7, Some(KeyId::Space), None, 1));
    presses.down(Press::new(7, Some(KeyId::Enter), None, 2));
    let only = presses.get(7).expect("还按着");
    assert_eq!(only.key, Some(KeyId::Enter));
    assert_eq!(only.geometry, 2);
    presses.up(7);
    assert!(presses.get(7).is_none());
}

#[test]
fn a_finger_that_slid_off_fires_nothing() {
    let mut press = Press::new(1, Some(KeyId::Letter('q')), None, ());
    assert!(!slid_off(&press, Some(KeyId::Letter('q'))));
    assert!(slid_off(&press, Some(KeyId::Letter('w'))));
    assert!(slid_off(&press, None));
    press.sliding = true;
    assert_eq!(release(&press, true), None);
}

#[test]
fn lifting_off_the_key_fires_nothing() {
    let press = Press::new(1, Some(KeyId::Letter('q')), None, ());
    assert_eq!(release(&press, false), None);
    let between = Press::new(1, None, None, ());
    assert_eq!(release(&between, true), None);
}

#[test]
fn holding_backspace_repeats_and_lifting_adds_nothing() {
    let mut presses: Presses<()> = Presses::new();
    down(&mut presses, 3, KeyId::Backspace, None);
    assert_eq!(presses.held(3), Some(KeyId::Backspace));
    presses.note_repeat(3);
    let ended = presses.up(3).unwrap();
    assert_eq!(release(&ended, true), None, "连发过的手指，抬起不该再补一个");
    assert_eq!(presses.held(3), None, "手指已经松了");
}

#[test]
fn a_long_press_on_a_letter_opens_the_row_and_types_the_choice() {
    let mut presses: Presses<()> = Presses::new();
    down(&mut presses, 1, KeyId::Letter('y'), Some('6'));
    assert!(presses.begin_choice(1));
    assert!(presses.begin_choice(1), "开着就一直开着");
    assert_eq!(presses.held(1), None, "开了选项就不算按住");
    let ended = presses.up(1).unwrap();
    assert_eq!(release(&ended, true), Some(Release::Key(KeyId::Literal('6'))));

    down(&mut presses, 2, KeyId::Letter('y'), Some('6'));
    presses.begin_choice(2);
    let mut press = presses.up(2).unwrap();
    press.choice = 0;
    assert_eq!(release(&press, true), Some(Release::Key(KeyId::Literal('Y'))));
}

#[test]
fn only_letters_with_a_hint_open_the_row() {
    let mut presses: Presses<()> = Presses::new();
    down(&mut presses, 1, KeyId::Letter('a'), None);
    down(&mut presses, 2, KeyId::Space, Some('x'));
    assert!(!presses.begin_choice(1));
    assert!(!presses.begin_choice(2));
    assert!(!presses.begin_choice(9));
}

#[test]
fn swiping_up_on_backspace_clears_and_taking_it_back_does_nothing() {
    let mut press = Press::new(1, Some(KeyId::Backspace), None, ());
    press.clearing = true;
    press.gestured = true;
    assert_eq!(release(&press, false), Some(Release::ClearToStart));
    press.clearing = false;
    assert_eq!(release(&press, true), None, "反悔之后抬手什么也不做");
}

#[test]
fn swiping_left_on_a_clipboard_entry_deletes_it() {
    let mut press = Press::new(1, Some(KeyId::Clipboard(2)), None, ());
    press.deleting = true;
    press.gestured = true;
    assert_eq!(release(&press, false), Some(Release::DeleteClipboard(2)));
}

#[test]
fn a_cursor_drag_ends_without_a_space() {
    let mut press = Press::new(1, Some(KeyId::Space), None, ());
    press.cursor_started = true;
    assert_eq!(release(&press, true), None);
    assert!(!slid_off(&press, None), "拖光标时滑出空格键也照走");
}

#[test]
fn the_latest_finger_on_a_key_is_shown_pressed() {
    let mut presses: Presses<()> = Presses::new();
    assert!(presses.shown().is_none());
    down(&mut presses, 1, KeyId::Letter('a'), None);
    down(&mut presses, 2, KeyId::Letter('b'), None);
    assert_eq!(presses.shown().unwrap().pointer, 2);
    let mut second = Press::new(2, Some(KeyId::Letter('b')), None, ());
    second.sliding = true;
    presses.update(second);
    assert_eq!(presses.shown().unwrap().pointer, 1);
    presses.cancel();
    assert!(presses.shown().is_none());
}

fn at(hit: Option<KeyId>) -> Motion {
    Motion {
        hit,
        pick: 1,
        up_swiped: false,
        vertical: false,
        stepped: false,
        left_swiped: false,
        past_dead_zone: false,
        rightward: false,
    }
}

#[test]
fn sliding_onto_another_key_cancels_only_that_finger() {
    let mut presses: Presses<()> = Presses::new();
    down(&mut presses, 1, KeyId::Letter('q'), None);
    down(&mut presses, 2, KeyId::Letter('p'), None);
    assert_eq!(presses.moved(1, at(Some(KeyId::Letter('w'))), ()), None);
    // Back on its own key: still cancelled.
    assert_eq!(presses.moved(1, at(Some(KeyId::Letter('q'))), ()), None);
    let first = presses.up(1).expect("finger 1 is down");
    assert!(first.sliding);
    assert_eq!(release(&first, true), None);
    let second = presses.up(2).expect("finger 2 is down");
    assert_eq!(release(&second, true), Some(Release::Key(KeyId::Letter('p'))));
}

#[test]
fn a_wobble_on_the_same_key_still_types() {
    let press = Press::new(1, Some(KeyId::Letter('a')), None, ());
    let (press, fired) = moved(press, at(Some(KeyId::Letter('a'))), ());
    assert_eq!(fired, None);
    assert_eq!(release(&press, true), Some(Release::Key(KeyId::Letter('a'))));
}

#[test]
fn a_swipe_up_on_backspace_clears_and_a_swipe_back_takes_it_back() {
    let press = Press::new(1, Some(KeyId::Backspace), None, ());
    let (up, _) = moved(press, Motion { up_swiped: true, ..at(None) }, ());
    assert!(up.clearing && up.gestured && !up.sliding);
    assert_eq!(release(&up, false), Some(Release::ClearToStart));
    let (back, _) = moved(up, at(Some(KeyId::Backspace)), ());
    assert!(!back.clearing && back.gestured);
    assert_eq!(release(&back, true), None);
}

#[test]
fn a_left_swipe_on_a_clipboard_entry_deletes_it() {
    let press = Press::new(1, Some(KeyId::Clipboard(2)), None, ());
    let (left, fired) = moved(press, Motion { left_swiped: true, ..at(None) }, ());
    assert_eq!(fired, None);
    assert_eq!(release(&left, false), Some(Release::DeleteClipboard(2)));
}

#[test]
fn a_vertical_drag_on_a_list_scrolls_and_is_no_tap() {
    let press = Press::new(1, Some(KeyId::Emoji(0)), None, ());
    let (still, fired) = moved(press, Motion { vertical: true, ..at(Some(KeyId::Emoji(0))) }, ());
    assert_eq!(fired, None);
    assert!(still.scrolling && still.gestured);
    let (scrolled, fired) = moved(still, Motion { stepped: true, left_swiped: true, ..at(None) }, ());
    assert_eq!(fired, Some(MoveFire::Scroll));
    assert!(!scrolled.deleting);
    assert_eq!(release(&scrolled, true), None);
}

#[test]
fn a_space_drag_moves_the_cursor_as_soon_as_it_leaves_the_dead_zone() {
    let press = Press::new(1, Some(KeyId::Space), None, ());
    let (small, fired) = moved(press, at(Some(KeyId::Space)), ());
    assert_eq!(fired, None);
    let (left, fired) = moved(small, Motion { past_dead_zone: true, ..at(None) }, ());
    assert_eq!(fired, Some(MoveFire::MoveCursor(-1)));
    assert!(left.cursor_started && !left.sliding);
    let (again, fired) = moved(left, Motion { past_dead_zone: true, rightward: true, ..at(None) }, ());
    assert_eq!(fired, None);
    assert_eq!(release(&again, true), None);
    let right = Press::new(2, Some(KeyId::Space), None, ());
    let (_, fired) = moved(right, Motion { past_dead_zone: true, rightward: true, ..at(None) }, ());
    assert_eq!(fired, Some(MoveFire::MoveCursor(1)));
}

#[test]
fn the_row_of_choices_follows_the_finger() {
    let mut presses: Presses<()> = Presses::new();
    down(&mut presses, 4, KeyId::Letter('a'), Some('!'));
    assert!(presses.begin_choice(4));
    assert_eq!(presses.moved(4, Motion { pick: 0, ..at(None) }, ()), None);
    let ended = presses.up(4).expect("finger 4 is down");
    assert!(!ended.sliding);
    assert_eq!(release(&ended, false), Some(Release::Key(KeyId::Literal('A'))));
}

#[test]
fn holding_backspace_repeats_until_lifted() {
    let mut presses: Presses<()> = Presses::new();
    down(&mut presses, 3, KeyId::Backspace, None);
    for _ in 0..3 {
        assert_eq!(presses.repeat(3), Some(KeyId::Backspace));
    }
    let ended = presses.up(3).expect("finger 3 is down");
    assert_eq!(release(&ended, true), None);
    assert_eq!(presses.repeat(3), None);
}

#[test]
fn a_letter_held_down_does_not_repeat() {
    let mut presses: Presses<()> = Presses::new();
    down(&mut presses, 1, KeyId::Letter('a'), None);
    assert_eq!(presses.repeat(1), None);
    let ended = presses.up(1).expect("finger 1 is down");
    assert_eq!(release(&ended, true), Some(Release::Key(KeyId::Letter('a'))));
}
