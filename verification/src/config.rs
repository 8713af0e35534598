//! The `[dictionaries]` and `[keyboard]` sections of the configuration file.

use vstd::prelude::*;
use crate::recent::views;
use crate::text::same_text;

verus! {

/// Domain dictionaries opened by default on the desktop: four-character idioms are almost
/// never ambiguous, the others are opened on demand.
pub const DEFAULT_DOMAINS: [&'static str; 1] = ["idioms"];

/// Every domain dictionary that ships with the app, by file name, sorted.
pub const ALL_DOMAINS: [&'static str; 11] = [
    "animals",
    "automotive",
    "finance",
    "food",
    "historical_figures",
    "idioms",
    "it_computing",
    "law",
    "medicine",
    "places",
    "poetry_lines",
];

/// The `[dictionaries]` section: which extra dictionaries are loaded.
///
/// Bundled domain dictionaries load only when listed in `domains`; dictionaries the user
/// imported load unless listed in `disabled` (both by file name without `.qj`).
#[derive(Debug, Clone, PartialEq, Eq)]
pub struct DictionariesConfig {
    /// Bundled domain dictionaries that are open.
    pub domains: Vec<String>,
    /// User dictionaries that are switched off.
    pub disabled: Vec<String>,
}

/// Whether `list` holds `text`.
pub open spec fn lists(list: Seq<String>, text: Seq<char>) -> bool {
    views(list).contains(text)
}

/// The characters of each name, in order.
pub open spec fn names(list: Seq<&str>) -> Seq<Seq<char>> {
    list.map_values(|s: &str| s@)
}

/// Owned copies of `list`, in order.
fn to_strings(list: &[&str]) -> (out: Vec<String>)
    ensures
        views(out@) == names(list@),
{
    let mut out: Vec<String> = Vec::new();
    let mut i: usize = 0;
    while i < list.len()
        invariant
            i <= list.len(),
            views(out@) =~= names(list@).take(i as int),
        decreases list.len() - i,
    {
        let ghost before = views(out@);
        let name = list[i].to_owned();
        out.push(name);
        assert(views(out@) =~= before.push(list@[i as int]@));
        assert(names(list@).take(i as int + 1) =~= names(list@).take(i as int).push(list@[i as int]@));
        i += 1;
    }
    assert(names(list@).take(list.len() as int) =~= names(list@));
    out
}

/// Whether some name in `list` is `stem`.
fn has_name(list: &Vec<String>, stem: &str) -> (found: bool)
    ensures
        found == lists(list@, stem@),
{
    let mut i: usize = 0;
    while i < list.len()
        invariant
            i <= list.len(),
            forall|j: int| 0 <= j < i ==> views(list@)[j] != stem@,
        decreases list.len() - i,
    {
        if same_text(list[i].as_str(), stem) {
            assert(views(list@)[i as int] == stem@);
            return true;
        }
        i += 1;
    }
    assert(!views(list@).contains(stem@)) by {
        if views(list@).contains(stem@) {
            let j = choose|j: int| 0 <= j < views(list@).len() && views(list@)[j] == stem@;
            assert(views(list@)[j] != stem@);
        }
    }
    false
}

impl DictionariesConfig {
    /// The defaults: every bundled domain opens on Android (long candidate strips, and a
    /// specialist word being findable matters more there); only `idioms` on the desktop.
    /// No user dictionary is switched off.
    pub fn for_platform(android: bool) -> (config: DictionariesConfig)
        ensures
            views(config.domains@) == (if android {
                names(ALL_DOMAINS@)
            } else {
                names(DEFAULT_DOMAINS@)
            }),
            config.disabled@.len() == 0,
    {
        let domains = if android {
            to_strings(&ALL_DOMAINS)
        } else {
            to_strings(&DEFAULT_DOMAINS)
        };
        DictionariesConfig { domains, disabled: Vec::new() }
    }

    /// Whether a user dictionary loads: unless it is switched off.
    pub fn is_enabled(&self, stem: &str) -> (enabled: bool)
        ensures
            enabled == !lists(self.disabled@, stem@),
    {
        !has_name(&self.disabled, stem)
    }

    /// Whether a bundled domain dictionary loads: only when it is listed.
    pub fn is_domain_enabled(&self, stem: &str) -> (enabled: bool)
        ensures
            enabled == lists(self.domains@, stem@),
    {
        has_name(&self.domains, stem)
    }
}

impl Default for DictionariesConfig {
    /// The defaults of the platform the tests and desktop builds run on: only `idioms`
    /// (the Android shell asks for [`DictionariesConfig::for_platform`] with `true`).
    fn default() -> (config: DictionariesConfig)
        ensures
            views(config.domains@) == names(DEFAULT_DOMAINS@),
            config.disabled@.len() == 0,
    {
        DictionariesConfig::for_platform(false)
    }
}

/// Shortest custom vibration (milliseconds).
pub const MIN_VIBRATION_MS: u32 = 1;

/// Longest custom vibration (milliseconds): longer feels like a phone call, not a key.
pub const MAX_VIBRATION_MS: u32 = 50;

/// Default custom vibration (milliseconds).
pub const DEFAULT_VIBRATION_MS: u32 = 20;

/// How a key press vibrates. All but [`VibrationStyle::Custom`] are the system's
/// predefined effects, ordered light to strong.
#[derive(Debug, Clone, Copy, PartialEq, Eq, Structural)]
pub enum VibrationStyle {
    /// No vibration.
    Off,
    /// Light.
    Tick,
    /// Crisp: the default, the system's recommended middle ground.
    Click,
    /// Heavy.
    Heavy,
    /// Double click.
    Double,
    /// A custom length, see [`KeyboardConfig::vibration_ms`].
    Custom,
}

impl VibrationStyle {
    /// Every value, light to strong with `Custom` last: the order the settings page lists.
    pub const ALL: [VibrationStyle; 6] = [
        VibrationStyle::Off,
        VibrationStyle::Tick,
        VibrationStyle::Click,
        VibrationStyle::Heavy,
        VibrationStyle::Double,
        VibrationStyle::Custom,
    ];

    /// How the configuration file spells each style.
    pub open spec fn spec_key(self) -> Seq<char> {
        match self {
            VibrationStyle::Off => "off"@,
            VibrationStyle::Tick => "tick"@,
            VibrationStyle::Click => "click"@,
            VibrationStyle::Heavy => "heavy"@,
            VibrationStyle::Double => "double"@,
            VibrationStyle::Custom => "custom"@,
        }
    }

    /// The name the settings page shows for each style.
    pub open spec fn spec_label(self) -> Seq<char> {
        match self {
            VibrationStyle::Off => "关"@,
            VibrationStyle::Tick => "轻微"@,
            VibrationStyle::Click => "清脆"@,
            VibrationStyle::Heavy => "低沉"@,
            VibrationStyle::Double => "双击"@,
            VibrationStyle::Custom => "自定义"@,
        }
    }

    /// The spelling in the configuration file.
    pub fn key(self) -> (key: &'static str)
        ensures
            key@ == self.spec_key(),
    {
        match self {
            VibrationStyle::Off => "off",
            VibrationStyle::Tick => "tick",
            VibrationStyle::Click => "click",
            VibrationStyle::Heavy => "heavy",
            VibrationStyle::Double => "double",
            VibrationStyle::Custom => "custom",
        }
    }

    /// The name on the settings page.
    pub fn label(self) -> (label: &'static str)
        ensures
            label@ == self.spec_label(),
    {
        match self {
            VibrationStyle::Off => "关",
            VibrationStyle::Tick => "轻微",
            VibrationStyle::Click => "清脆",
            VibrationStyle::Heavy => "低沉",
            VibrationStyle::Double => "双击",
            VibrationStyle::Custom => "自定义",
        }
    }
}

impl Default for VibrationStyle {
    /// `Click`.
    fn default() -> (style: VibrationStyle)
        ensures
            style == VibrationStyle::Click,
    {
        VibrationStyle::Click
    }
}

/// The `[keyboard]` section: how keys feel (Android only).
#[derive(Debug, Clone, PartialEq, Eq)]
pub struct KeyboardConfig {
    /// How a key press vibrates.
    pub vibration: VibrationStyle,
    /// Custom vibration length in milliseconds; meant to be 1 to 50, used only with
    /// `vibration = "custom"`.
    pub vibration_ms: u32,
}

/// `ms` brought into `[MIN_VIBRATION_MS, MAX_VIBRATION_MS]`.
pub open spec fn clamped_ms(ms: u32) -> u32 {
    if ms < MIN_VIBRATION_MS {
        MIN_VIBRATION_MS
    } else if ms > MAX_VIBRATION_MS {
        MAX_VIBRATION_MS
    } else {
        ms
    }
}

impl KeyboardConfig {
    /// The custom vibration length, brought into the allowed range.
    pub fn vibration_ms(&self) -> (ms: u32)
        ensures
            ms == clamped_ms(self.vibration_ms),
            MIN_VIBRATION_MS <= ms <= MAX_VIBRATION_MS,
    {
        if self.vibration_ms < MIN_VIBRATION_MS {
            MIN_VIBRATION_MS
        } else if self.vibration_ms > MAX_VIBRATION_MS {
            MAX_VIBRATION_MS
        } else {
            self.vibration_ms
        }
    }
}

impl Default for KeyboardConfig {
    /// `Click`, with a custom length of [`DEFAULT_VIBRATION_MS`].
    fn default() -> (config: KeyboardConfig)
        ensures
            config.vibration == VibrationStyle::Click,
            config.vibration_ms == DEFAULT_VIBRATION_MS,
    {
        KeyboardConfig { vibration: VibrationStyle::Click, vibration_ms: DEFAULT_VIBRATION_MS }
    }
}

/// The custom vibration length is kept between 1 and 50 ms: a length in range is used as
/// given, a shorter one becomes the shortest, a longer one the longest.
pub proof fn lemma_vibration_length_is_clamped(ms: u32)
    ensures
        MIN_VIBRATION_MS == 1 && MAX_VIBRATION_MS == 50 && DEFAULT_VIBRATION_MS == 20,
        1 <= clamped_ms(ms) <= 50,
        1 <= ms <= 50 ==> clamped_ms(ms) == ms,
        ms < 1 ==> clamped_ms(ms) == 1,
        ms > 50 ==> clamped_ms(ms) == 50,
{
}

/// Every style has a spelling of its own in the file and a name of its own on the
/// settings page, so none is read back as another; the file spells them `off`, `tick`,
/// `click`, `heavy`, `double`, `custom`.
pub proof fn lemma_styles_are_told_apart(a: VibrationStyle, b: VibrationStyle)
    ensures
        a != b ==> a.spec_key() != b.spec_key(),
        a != b ==> a.spec_label() != b.spec_label(),
        VibrationStyle::Off.spec_key() == "off"@,
        VibrationStyle::Tick.spec_key() == "tick"@,
        VibrationStyle::Click.spec_key() == "click"@,
        VibrationStyle::Heavy.spec_key() == "heavy"@,
        VibrationStyle::Double.spec_key() == "double"@,
        VibrationStyle::Custom.spec_key() == "custom"@,
{
    reveal_strlit("off");
    reveal_strlit("tick");
    reveal_strlit("click");
    reveal_strlit("heavy");
    reveal_strlit("double");
    reveal_strlit("custom");
    reveal_strlit("关");
    reveal_strlit("轻微");
    reveal_strlit("清脆");
    reveal_strlit("低沉");
    reveal_strlit("双击");
    reveal_strlit("自定义");
    if a != b {
        assert(a.spec_key() != b.spec_key()) by {
            assert("off"@[0] != "tick"@[0]);
            if a.spec_key().len() == b.spec_key().len() {
                assert(a.spec_key()[0] != b.spec_key()[0] || a.spec_key()[1] != b.spec_key()[1]);
            }
        }
        assert(a.spec_label() != b.spec_label()) by {
            if a.spec_label().len() == b.spec_label().len() {
                assert(a.spec_label()[0] != b.spec_label()[0]);
            }
        }
    }
}

} // verus!
