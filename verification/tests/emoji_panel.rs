use qingjian::emoji_panel::{group_label, EmojiPanel, GroupIcon, GroupLabel, KAOMOJI_SLOTS};
use qingjian::recent::Recent;

fn items(panel: &EmojiPanel, page: usize) -> Vec<String> {
    panel.page_items(page).to_vec()
}

const TABLE: &str = "# 说明，不是分类\n# group: Smileys & Emotion\n笑\t😀\tgrinning\n笑\t😃\n笑\t😄\n# group:  手势 \n手\t👍\n手\t👎\n\n没有制表符的行\n# group: 空的\n";

#[test]
fn a_table_reads_into_groups_and_pages() {
    let panel = EmojiPanel::from_text(Some(TABLE), 2, false);
    assert_eq!(panel.group_count(), 3);
    // 笑: 3 items in pages of 2 → 2 pages; 手: 1 page; 空的: one empty page
    assert_eq!(panel.page_count(), 4);
    assert_eq!(items(&panel, 0), ["😀", "😃"]);
    assert_eq!(items(&panel, 1), ["😄"]);
    assert_eq!(items(&panel, 2), ["👍", "👎"]);
    assert!(items(&panel, 3).is_empty(), "空分类也占一页");
    assert!(items(&panel, 4).is_empty(), "页码越界什么也没有");
    assert_eq!(panel.labels()[0], GroupLabel::Icon(GroupIcon::Smile));
    assert_eq!(panel.labels()[1], GroupLabel::Text("手势".to_owned()), "分类名两头的空白去掉");
}

#[test]
fn pages_know_their_group() {
    let panel = EmojiPanel::from_text(Some(TABLE), 2, false);
    assert_eq!(panel.group_of_page(0), 0);
    assert_eq!(panel.group_of_page(1), 0);
    assert_eq!(panel.group_of_page(2), 1);
    assert_eq!(panel.group_of_page(3), 2);
    assert_eq!(panel.group_of_page(99), 0);
    assert_eq!(panel.page_of_group(1), 2);
    assert_eq!(panel.page_of_group(7), 0);
    assert_eq!(panel.pages_of_group(0), 2);
    assert_eq!(panel.pages_of_group(2), 1);
    assert_eq!(panel.pages_of_group(9), 1);
}

#[test]
fn an_unreadable_table_gives_an_empty_panel() {
    let panel = EmojiPanel::from_text(None, 3, true);
    assert_eq!(panel.page_count(), 0);
    assert_eq!(panel.group_count(), 0);
    let default = EmojiPanel::default();
    assert_eq!(default.page_count(), 0);
}

#[test]
fn recent_items_go_in_front_as_their_own_group() {
    let mut panel = EmojiPanel::from_text(Some(TABLE), 2, false);
    let mut recent = Recent::default();
    recent.remember("👍");
    panel.set_recent(recent.entries());
    assert_eq!(panel.group_count(), 4);
    assert_eq!(panel.labels()[0], GroupLabel::Icon(GroupIcon::Recent));
    assert_eq!(items(&panel, 0), ["👍"]);
    assert_eq!(panel.page_of_group(1), 1);

    // 再记一条：还是那一类，不再多插一类
    recent.remember("😀");
    panel.set_recent(recent.entries());
    assert_eq!(panel.group_count(), 4);
    assert_eq!(items(&panel, 0), ["😀", "👍"]);

    // 清空：表情页不留空的「最近」
    panel.set_recent(&[]);
    assert_eq!(panel.group_count(), 3);
    assert_eq!(items(&panel, 0), ["😀", "😃"]);
}

#[test]
fn a_sticky_recent_group_stays_empty() {
    let mut panel = EmojiPanel::from_text(Some(TABLE), KAOMOJI_SLOTS, true);
    panel.set_recent(&["(^_^)".to_owned()]);
    assert_eq!(panel.group_count(), 4);
    panel.set_recent(&[]);
    assert_eq!(panel.group_count(), 4, "颜文字页的「最近」常驻");
    assert!(items(&panel, 0).is_empty());
}

#[test]
fn merging_puts_every_item_in_one_group() {
    let mut panel = EmojiPanel::from_text(Some(TABLE), 2, true);
    panel.merge_groups();
    assert_eq!(panel.group_count(), 1);
    assert_eq!(panel.labels()[0], GroupLabel::Text("全部".to_owned()));
    assert_eq!(panel.page_count(), 3);
    assert_eq!(items(&panel, 1), ["😄", "👍"]);
}

#[test]
fn retain_drops_undrawable_items_and_empty_groups() {
    let mut panel = EmojiPanel::from_text(Some(TABLE), 2, false);
    panel.retain(|text| text != "👍" && text != "👎");
    assert_eq!(panel.group_count(), 1, "手势那类滤空了，空的那类本来就空");
    assert_eq!(panel.page_count(), 2);
}

#[test]
fn a_place_is_found_again_after_recent_items_arrive() {
    let mut panel = EmojiPanel::from_text(Some(TABLE), 2, false);
    let (name, within) = panel.place_of_page(1);
    assert_eq!(name.as_deref(), Some("Smileys & Emotion"));
    assert_eq!(within, 1);
    let before = items(&panel, 1);
    panel.set_recent(&["👍".to_owned()]);
    let page = panel.restore_page(name.as_deref(), within).expect("该找得回来");
    assert_eq!(page, 2);
    assert_eq!(items(&panel, page), before, "内容挪了也该落在原来那一页上");
    assert_eq!(panel.restore_page(Some("没有这一类"), 0), None);
    assert_eq!(panel.restore_page(None, 0), None);
}

#[test]
fn the_kaomoji_button_toggles_between_recent_and_everything() {
    let mut panel = EmojiPanel::from_text(Some(TABLE), 2, true);
    panel.merge_groups();
    panel.set_recent(&["(^_^)".to_owned()]);
    // 在「最近」（第 0 页）上点：去「全部」的第一页
    assert_eq!(panel.tab_target(true, 0, 0), Some(1));
    // 在「全部」里点：回「最近」
    assert_eq!(panel.tab_target(true, 2, 0), Some(0));
    // 表情页：点第几格就去第几类
    assert_eq!(panel.tab_target(false, 0, 1), Some(1));
    assert_eq!(panel.tab_target(false, 0, 5), None);
}

#[test]
fn group_names_pick_their_icons() {
    assert_eq!(group_label("最近"), GroupLabel::Icon(GroupIcon::Recent));
    assert_eq!(group_label("Flags"), GroupLabel::Icon(GroupIcon::Flags));
    assert_eq!(group_label("Food & Drink"), GroupLabel::Icon(GroupIcon::Food));
    assert_eq!(group_label("开心"), GroupLabel::Text("开心".to_owned()));
}
