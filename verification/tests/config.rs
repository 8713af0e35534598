use qingjian::config::{
    DictionariesConfig, KeyboardConfig, VibrationStyle, ALL_DOMAINS, DEFAULT_DOMAINS,
    DEFAULT_VIBRATION_MS, MAX_VIBRATION_MS, MIN_VIBRATION_MS,
};

#[test]
fn all_domains_is_sorted_and_unique() {
    let mut sorted = ALL_DOMAINS;
    sorted.sort_unstable();
    assert_eq!(ALL_DOMAINS, sorted);
    assert!(
        ALL_DOMAINS.windows(2).all(|pair| pair[0] != pair[1]),
        "名字重复了"
    );
}

#[test]
fn default_opens_every_domain_on_android_only() {
    let default = DictionariesConfig::default();
    assert_eq!(default.domains, DEFAULT_DOMAINS);
    let android = DictionariesConfig::for_platform(true);
    assert_eq!(android.domains.len(), ALL_DOMAINS.len());
    assert_eq!(android.domains, ALL_DOMAINS);
    assert!(android.disabled.is_empty());
}

#[test]
fn enabled_checks_match_the_lists() {
    let config = DictionariesConfig::default();
    assert!(config.is_domain_enabled("idioms"));
    assert!(!config.is_domain_enabled("medicine"));
    assert!(config.is_enabled("mine"));
    assert!(DictionariesConfig::for_platform(true).is_domain_enabled("medicine"));
}

#[test]
fn a_disabled_user_dictionary_is_skipped() {
    let config = DictionariesConfig {
        domains: vec!["law".to_owned()],
        disabled: vec!["mine".to_owned(), "old".to_owned()],
    };
    assert!(!config.is_enabled("old"));
    assert!(config.is_enabled("new"));
    assert!(config.is_domain_enabled("law"));
    assert!(!config.is_domain_enabled("idioms"));
}

#[test]
fn vibration_ms_is_clamped() {
    let too_short = KeyboardConfig {
        vibration_ms: 0,
        ..KeyboardConfig::default()
    };
    assert_eq!(too_short.vibration_ms(), MIN_VIBRATION_MS);
    let too_long = KeyboardConfig {
        vibration_ms: 500,
        ..KeyboardConfig::default()
    };
    assert_eq!(too_long.vibration_ms(), MAX_VIBRATION_MS);
    let fine = KeyboardConfig {
        vibration_ms: 33,
        ..KeyboardConfig::default()
    };
    assert_eq!(fine.vibration_ms(), 33);
}

#[test]
fn default_is_click_with_twenty_milliseconds() {
    assert_eq!(KeyboardConfig::default().vibration, VibrationStyle::Click);
    assert_eq!(KeyboardConfig::default().vibration_ms(), 20);
    assert_eq!(DEFAULT_VIBRATION_MS, 20);
    assert_eq!(VibrationStyle::default(), VibrationStyle::Click);
}

#[test]
fn vibration_styles_have_distinct_keys_and_labels() {
    let keys: Vec<&str> = VibrationStyle::ALL.iter().map(|s| s.key()).collect();
    assert_eq!(keys, ["off", "tick", "click", "heavy", "double", "custom"]);
    let labels: Vec<&str> = VibrationStyle::ALL.iter().map(|s| s.label()).collect();
    assert_eq!(labels, ["关", "轻微", "清脆", "低沉", "双击", "自定义"]);
}
