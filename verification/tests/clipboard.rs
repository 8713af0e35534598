use qingjian::clipboard::{ClearStep, ClipboardHistory, CLEAR_CONFIRM_WINDOW_MS};
use qingjian::recent::{Recent, CLIPBOARD_LIMIT};

fn history() -> ClipboardHistory {
    ClipboardHistory::new(Recent::from_text(None, CLIPBOARD_LIMIT))
}

#[test]
fn copies_are_remembered_newest_first() {
    let mut clip = history();
    assert!(clip.note("一"));
    assert!(clip.note("二"));
    assert!(!clip.note("二"), "已经在最前面");
    assert_eq!(clip.recent().entries(), ["二", "一"]);
    assert_eq!(clip.entry(1).map(String::as_str), Some("一"));
    assert_eq!(clip.entry(2), None);
}

#[test]
fn clearing_takes_two_taps_within_the_window() {
    let mut clip = history();
    clip.note("a");
    assert_eq!(clip.tap_clear(1_000), ClearStep::Armed);
    assert!(clip.armed());
    assert_eq!(clip.tap_clear(1_000 + CLEAR_CONFIRM_WINDOW_MS - 1), ClearStep::Cleared(true));
    assert!(clip.recent().is_empty());
    assert!(!clip.armed());
}

#[test]
fn a_late_second_tap_only_arms_again() {
    let mut clip = history();
    clip.note("a");
    assert_eq!(clip.tap_clear(0), ClearStep::Armed);
    assert_eq!(clip.tap_clear(CLEAR_CONFIRM_WINDOW_MS), ClearStep::Armed);
    assert_eq!(clip.recent().entries(), ["a"]);
    assert!(!clip.expire(CLEAR_CONFIRM_WINDOW_MS + 1));
    assert!(clip.expire(2 * CLEAR_CONFIRM_WINDOW_MS));
    assert!(!clip.armed());
}

#[test]
fn what_was_just_cleared_does_not_come_back() {
    let mut clip = history();
    clip.note("旧的");
    clip.note("系统剪贴板里这条");
    clip.tap_clear(10);
    assert_eq!(clip.tap_clear(20), ClearStep::Cleared(true));
    assert!(!clip.note("系统剪贴板里这条"), "键盘再弹出来报同一条，不该记回来");
    assert!(clip.recent().is_empty());
    assert!(clip.note("新复制的"));
    assert!(clip.note("系统剪贴板里这条"), "剪贴板变过之后照常记");
    assert_eq!(clip.recent().entries(), ["系统剪贴板里这条", "新复制的"]);
}

#[test]
fn clearing_an_empty_history_reports_no_change() {
    let mut clip = history();
    clip.tap_clear(0);
    assert_eq!(clip.tap_clear(1), ClearStep::Cleared(false));
}

#[test]
fn deleting_drops_one_entry() {
    let mut clip = history();
    clip.note("a");
    clip.note("b");
    assert!(clip.delete(1));
    assert!(!clip.delete(5));
    assert_eq!(clip.recent().entries(), ["b"]);
}
