use qingjian::command::Command;
use qingjian::outbox::{
    mask, Outbox, SurfaceState, BAR, COMMIT, FLING, KEYBOARD, PREDICTING, PREEDIT, SETTINGS,
};

fn quiet() -> SurfaceState {
    SurfaceState {
        expanded: false,
        expanded_dirty: false,
        keyboard_dirty: false,
        bar_dirty: false,
        preedit_dirty: false,
        pending_output: false,
        moving: false,
        pending_settings: false,
        predicting: false,
    }
}

#[test]
fn a_quiet_state_asks_for_nothing() {
    assert_eq!(mask(&quiet()), 0);
}

#[test]
fn every_flag_has_its_own_bit() {
    let all = SurfaceState {
        expanded: false,
        expanded_dirty: false,
        keyboard_dirty: true,
        bar_dirty: true,
        preedit_dirty: true,
        pending_output: true,
        moving: true,
        pending_settings: true,
        predicting: true,
    };
    assert_eq!(mask(&all), BAR | KEYBOARD | COMMIT | PREEDIT | FLING | SETTINGS | PREDICTING);
    assert_eq!(mask(&all), 127);
    assert_eq!(mask(&SurfaceState { preedit_dirty: true, ..quiet() }), 8);
    assert_eq!(mask(&SurfaceState { predicting: true, ..quiet() }), 64);
}

#[test]
fn the_expanded_panel_decides_the_keyboard_bit_while_open() {
    let open_clean = SurfaceState { expanded: true, keyboard_dirty: true, ..quiet() };
    assert_eq!(mask(&open_clean), 0, "面板开着时看面板脏不脏");
    let open_dirty = SurfaceState { expanded: true, expanded_dirty: true, ..quiet() };
    assert_eq!(mask(&open_dirty), KEYBOARD);
}

#[test]
fn committed_text_accumulates_until_taken() {
    let mut outbox = Outbox::new();
    assert!(!outbox.has_output());
    outbox.commit_text("你好");
    outbox.commit_text("，");
    assert!(outbox.has_output());
    assert_eq!(outbox.take_commit().as_deref(), Some("你好，"));
    assert_eq!(outbox.take_commit(), None, "取过就没了");
}

#[test]
fn commands_come_out_as_codes_in_order() {
    let mut outbox = Outbox::default();
    outbox.push_command(Command::Enter);
    outbox.push_command(Command::Backspace);
    assert_eq!(outbox.take_commands(), vec![2, 1]);
    assert!(outbox.take_commands().is_empty());
}

#[test]
fn dragging_the_cursor_queues_one_arrow_per_step() {
    let mut outbox = Outbox::new();
    outbox.move_cursor(false, 3);
    outbox.move_cursor(false, -2);
    assert_eq!(outbox.take_commands(), vec![4, 4, 4, 3, 3]);
    outbox.move_cursor(true, 5);
    assert!(outbox.take_commands().is_empty(), "组句当中不动光标");
    outbox.move_cursor(false, 0);
    assert!(!outbox.has_output());
}

#[test]
fn the_settings_request_is_taken_once() {
    let mut outbox = Outbox::new();
    assert!(!outbox.take_settings(), "还没人点过");
    outbox.request_settings();
    assert!(outbox.take_settings(), "取了就该有");
    assert!(!outbox.take_settings(), "取过就没了");
}
