use qingjian::config_watch::ConfigWatch;

/// Stands in for a configuration: the value of one switch.
#[derive(Debug, Clone, Copy, PartialEq, Eq)]
struct Fuzzy(bool);

fn taken(watch: &mut ConfigWatch<Fuzzy>, text: &str, parsed: Result<Fuzzy, String>) -> bool {
    assert!(watch.changed_text(Some(text)));
    let same = parsed.as_ref().is_ok_and(|c| c == watch.config());
    watch.settle(Some(text.to_owned()), parsed, same)
}

#[test]
fn an_unchanged_file_asks_for_nothing() {
    let mut watch = ConfigWatch::new(Fuzzy(false));
    assert!(!watch.changed_text(None));
    assert!(taken(&mut watch, "[fuzzy]\nz_zh = true\n", Ok(Fuzzy(true))));
    assert!(!watch.changed_text(Some("[fuzzy]\nz_zh = true\n")));
    assert!(watch.changed_text(None));
}

#[test]
fn a_broken_file_keeps_the_configuration_in_force() {
    let mut watch = ConfigWatch::new(Fuzzy(false));
    assert!(taken(&mut watch, "[fuzzy]\nz_zh = true\n", Ok(Fuzzy(true))));
    assert!(!taken(&mut watch, "[fuzzy\nz_zh = false\n", Err("expected ]".to_owned())));
    assert_eq!(*watch.config(), Fuzzy(true));
    assert_eq!(watch.error().map(String::as_str), Some("expected ]"));
    // The same broken text is not parsed again.
    assert!(!watch.changed_text(Some("[fuzzy\nz_zh = false\n")));
    // Fixed, it takes effect and the old error goes.
    assert!(taken(&mut watch, "[fuzzy]\nz_zh = false\n", Ok(Fuzzy(false))));
    assert_eq!(*watch.config(), Fuzzy(false));
    assert!(watch.error().is_none());
}

#[test]
fn a_comment_alone_changes_nothing_in_force() {
    let mut watch = ConfigWatch::new(Fuzzy(true));
    assert!(!taken(&mut watch, "# note\n[fuzzy]\nz_zh = true\n", Ok(Fuzzy(true))));
    assert_eq!(*watch.config(), Fuzzy(true));
}
