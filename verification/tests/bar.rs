use qingjian::action::BarHitId;
use qingjian::bar::{bar_release, panel_lifted, panel_moved, BarPress, BarPresses, PanelPress};

#[test]
fn a_tap_on_the_bar_commits_what_it_landed_on() {
    let mut presses: BarPresses<()> = BarPresses::new();
    presses.down(BarPress::new(1, Some(BarHitId::Candidate(2)), ()));
    assert!(!presses.dragged(1, false, true, ()));
    let ended = presses.up(1).expect("finger 1 is down");
    assert_eq!(bar_release(&ended, true), Some(BarHitId::Candidate(2)));
    assert_eq!(bar_release(&ended, false), None);
}

#[test]
fn a_drag_on_the_bar_scrolls_and_commits_nothing() {
    let mut presses: BarPresses<()> = BarPresses::new();
    presses.down(BarPress::new(1, Some(BarHitId::Candidate(0)), ()));
    presses.down(BarPress::new(2, Some(BarHitId::PageNext), ()));
    assert!(presses.dragged(1, true, true, ()));
    // Still dragging even back within the slop, and no step means no scroll.
    assert!(!presses.dragged(1, false, false, ()));
    let ended = presses.up(1).expect("finger 1 is down");
    assert_eq!(bar_release(&ended, true), None);
    let other = presses.up(2).expect("finger 2 is down");
    assert_eq!(bar_release(&other, true), Some(BarHitId::PageNext));
}

#[test]
fn the_panel_follows_one_finger() {
    let mut slot = Some(PanelPress { pointer: 5, sliding: false, geometry: () });
    assert!(!panel_moved(&mut slot, 6, true, true, ()));
    assert_eq!(panel_lifted(&mut slot, 6, Some(3)), None);
    assert_eq!(panel_lifted(&mut slot, 5, Some(3)), Some(3));
    assert!(slot.is_none());
}

#[test]
fn a_drag_on_the_panel_commits_nothing() {
    let mut slot = Some(PanelPress { pointer: 5, sliding: false, geometry: () });
    assert!(panel_moved(&mut slot, 5, true, true, ()));
    assert_eq!(panel_lifted(&mut slot, 5, Some(3)), None);
    assert_eq!(panel_lifted(&mut slot, 5, Some(3)), None);
}
