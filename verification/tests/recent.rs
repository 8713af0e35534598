use qingjian::escape::{escape, unescape};
use qingjian::recent::{parse, Recent, CLIPBOARD_LIMIT, EMOJI_RECENT_LIMIT};

#[test]
fn escapes_the_characters_that_would_break_the_format() {
    let rough = "第一行\n第二行\t带制表符\\还有反斜杠\r回车";
    let flat = escape(rough);
    assert!(!flat.contains('\n'), "转义完不该还有真换行：{flat}");
    assert_eq!(unescape(&flat), rough, "转一圈该原样回来");
    // 认不出的转义原样留着，别把内容吃掉
    assert_eq!(unescape("a\\qb"), "a\\qb");
}

#[test]
fn remembers_the_newest_first_and_does_not_repeat() {
    let mut clipboard = Recent::default();
    clipboard.remember("一");
    clipboard.remember("二");
    assert_eq!(clipboard.entries(), ["二", "一"], "最新的在最前");

    assert!(clipboard.remember("一"));
    assert_eq!(clipboard.entries(), ["一", "二"]);
    assert!(!clipboard.remember("一"), "已经在最前面了，什么也没变");
    assert!(!clipboard.remember("   "), "空白不收");
}

#[test]
fn drops_the_oldest_past_the_limit() {
    let mut clipboard = Recent::default();
    for index in 0..CLIPBOARD_LIMIT + 10 {
        clipboard.remember(&format!("第 {index} 条"));
    }
    assert_eq!(clipboard.len(), CLIPBOARD_LIMIT);
    assert_eq!(
        clipboard.entries()[0],
        format!("第 {} 条", CLIPBOARD_LIMIT + 9)
    );
    assert!(
        !clipboard.entries().contains(&"第 0 条".to_owned()),
        "最旧的该被丢掉了"
    );
}

#[test]
fn round_trips_through_the_file() {
    // The file is a text the caller writes after every change; here it is kept in memory.
    let mut clipboard = Recent::from_text(None, CLIPBOARD_LIMIT);
    assert!(clipboard.is_empty(), "文件还没有，从头开始");

    assert!(clipboard.remember("带\n换行的"));
    assert!(clipboard.remember("普通一条"));
    let file = clipboard.to_text();

    let reloaded = Recent::from_text(Some(&file), CLIPBOARD_LIMIT);
    assert_eq!(
        reloaded.entries(),
        ["普通一条", "带\n换行的"],
        "换个会话读回来该一模一样"
    );

    let mut reopened = Recent::from_text(Some(&file), CLIPBOARD_LIMIT);
    assert!(reopened.remove(0));
    assert!(!reopened.remove(9), "下标越界什么也不做");
    let file = reopened.to_text();
    assert_eq!(
        Recent::from_text(Some(&file), CLIPBOARD_LIMIT).entries(),
        ["带\n换行的"]
    );
    assert!(reopened.clear());
    let file = reopened.to_text();
    assert!(Recent::from_text(Some(&file), CLIPBOARD_LIMIT).is_empty());
}

#[test]
fn a_hand_edited_file_does_not_blow_up() {
    let clipboard = Recent::from_text(Some("# 头\n\n好的\n   \n也好的\n"), CLIPBOARD_LIMIT);
    assert_eq!(clipboard.entries(), ["好的", "也好的"], "空行与注释跳过");
}

#[test]
fn the_file_starts_with_the_header_and_escapes_each_entry() {
    let mut recent = Recent::default();
    recent.remember("a\tb");
    recent.remember("c\\d");
    assert_eq!(
        recent.to_text(),
        "# 剪贴板历史，一行一条、最新的在最前\nc\\\\d\na\\tb\n"
    );
}

#[test]
fn reading_stops_at_the_limit_and_keeps_file_order() {
    assert_eq!(parse("a\nb\nc\nd\n", 2), ["a", "b"]);
    assert_eq!(parse("a\r\nb", 5), ["a", "b"]);
    assert_eq!(parse("", 5), Vec::<String>::new());
    assert!(parse("x\n", 0).is_empty());
}

#[test]
fn an_entry_starting_with_a_hash_reads_back_as_a_comment() {
    let mut recent = Recent::default();
    recent.remember("#tag");
    let file = recent.to_text();
    assert!(Recent::from_text(Some(&file), CLIPBOARD_LIMIT).is_empty());
}

#[test]
fn a_lone_backslash_at_the_end_stays() {
    assert_eq!(unescape("abc\\"), "abc\\");
    assert_eq!(escape("\r"), "\\r");
    assert_eq!(unescape("\\n\\r\\t\\\\"), "\n\r\t\\");
}

#[test]
fn removing_and_clearing_report_changes() {
    let mut recent = Recent::from_text(None, EMOJI_RECENT_LIMIT);
    assert!(!recent.clear(), "空的清不了");
    assert!(!recent.remove(0));
    recent.remember("😀");
    recent.remember("🙂");
    assert!(recent.remove(1));
    assert_eq!(recent.entries(), ["🙂"]);
    assert!(recent.clear());
    assert!(recent.is_empty());
}

#[test]
fn retain_keeps_only_what_the_caller_accepts() {
    let mut recent = Recent::default();
    for text in ["a", "bb", "c", "dd"] {
        recent.remember(text);
    }
    recent.retain(|text| text.len() == 1);
    assert_eq!(recent.entries(), ["c", "a"]);
}

#[test]
fn a_small_limit_keeps_the_newest_only() {
    let mut recent = Recent::from_text(None, 1);
    recent.remember("a");
    assert!(recent.remember("b"));
    assert_eq!(recent.entries(), ["b"]);
    let mut none = Recent::from_text(None, 0);
    assert!(none.remember("a"), "变了（即使上限是 0 什么也留不下）");
    assert!(none.is_empty());
}

#[test]
fn remembering_again_moves_without_duplicating() {
    let mut recent = Recent::default();
    recent.remember("a");
    recent.remember("b");
    recent.remember("c");
    assert!(recent.remember("a"));
    assert_eq!(recent.entries(), ["a", "c", "b"]);
    assert!(!recent.remember("a"));
    assert_eq!(recent.entries(), ["a", "c", "b"]);
}
