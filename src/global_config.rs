//! User-wide preferences: key names, value validation, and the dev-defaults
//! data pack derived from them.
use vstd::prelude::*;
use crate::error::McmodError;
use crate::template::{decimal, push_decimal};
use crate::text::{append_str, chars_of, join_with, lower_of, lowercase, same_text, split_on, string_of};

verus! {

/// Defaults for new projects.
pub struct GlobalDefaults {
    pub author: Option<String>,
    pub language: Option<String>,
}

impl Default for GlobalDefaults {
    fn default() -> (r: GlobalDefaults)
        ensures
            r.author is None,
            r.language is None,
    {
        GlobalDefaults { author: None, language: None }
    }
}

/// Game rules that the dev-defaults data pack sets on world load.
pub struct GameRuleDefaults {
    pub do_daylight_cycle: Option<bool>,
    pub do_weather_cycle: Option<bool>,
    pub time_of_day: Option<String>,
}

impl Default for GameRuleDefaults {
    fn default() -> (r: GameRuleDefaults)
        ensures
            r.do_daylight_cycle == Some(false),
            r.do_weather_cycle == Some(false),
            r.time_of_day matches Some(t) && t@ == "noon"@,
    {
        GameRuleDefaults {
            do_daylight_cycle: Some(false),
            do_weather_cycle: Some(false),
            time_of_day: Some("noon".to_owned()),
        }
    }
}

/// The dotted form of a preference key; short names in camelCase or
/// snake_case are expanded, any other key is kept.
pub open spec fn normalized_key(k: Seq<char>) -> Seq<char> {
    if k == "author"@ {
        "defaults.author"@
    } else if k == "language"@ {
        "defaults.language"@
    } else if k == "fullscreen"@ {
        "options.fullscreen"@
    } else if k == "pauseOnLostFocus"@ || k == "pause_on_lost_focus"@ {
        "options.pause_on_lost_focus"@
    } else if k == "autoJump"@ || k == "auto_jump"@ {
        "options.auto_jump"@
    } else if k == "reducedDebugInfo"@ || k == "reduced_debug_info"@ {
        "options.reduced_debug_info"@
    } else if k == "gamma"@ {
        "options.gamma"@
    } else if k == "doDaylightCycle"@ || k == "do_daylight_cycle"@ {
        "gamerules.do_daylight_cycle"@
    } else if k == "doWeatherCycle"@ || k == "do_weather_cycle"@ {
        "gamerules.do_weather_cycle"@
    } else if k == "timeOfDay"@ || k == "time_of_day"@ {
        "gamerules.time_of_day"@
    } else {
        k
    }
}

/// Normalizes a short preference key to its dotted form.
pub fn normalize_key(key: &str) -> (r: String)
    ensures
        r@ == normalized_key(key@),
{
    let t = |s: &str| -> (b: bool)
        ensures
            b == (key@ == s@),
        { same_text(key, s) };
    if t("author") {
        "defaults.author".to_owned()
    } else if t("language") {
        "defaults.language".to_owned()
    } else if t("fullscreen") {
        "options.fullscreen".to_owned()
    } else if t("pauseOnLostFocus") || t("pause_on_lost_focus") {
        "options.pause_on_lost_focus".to_owned()
    } else if t("autoJump") || t("auto_jump") {
        "options.auto_jump".to_owned()
    } else if t("reducedDebugInfo") || t("reduced_debug_info") {
        "options.reduced_debug_info".to_owned()
    } else if t("gamma") {
        "options.gamma".to_owned()
    } else if t("doDaylightCycle") || t("do_daylight_cycle") {
        "gamerules.do_daylight_cycle".to_owned()
    } else if t("doWeatherCycle") || t("do_weather_cycle") {
        "gamerules.do_weather_cycle".to_owned()
    } else if t("timeOfDay") || t("time_of_day") {
        "gamerules.time_of_day".to_owned()
    } else {
        key.to_owned()
    }
}

/// The preferences that can be read and set.
#[derive(Debug, Clone, Copy, PartialEq, Eq, Structural)]
pub enum SettingKey {
    Author,
    Language,
    Fullscreen,
    PauseOnLostFocus,
    AutoJump,
    ReducedDebugInfo,
    Gamma,
    DoDaylightCycle,
    DoWeatherCycle,
    TimeOfDay,
}

/// The preference that a dotted key names.
pub open spec fn key_of(dotted: Seq<char>) -> Option<SettingKey> {
    if dotted == "defaults.author"@ {
        Some(SettingKey::Author)
    } else if dotted == "defaults.language"@ {
        Some(SettingKey::Language)
    } else if dotted == "options.fullscreen"@ {
        Some(SettingKey::Fullscreen)
    } else if dotted == "options.pause_on_lost_focus"@ {
        Some(SettingKey::PauseOnLostFocus)
    } else if dotted == "options.auto_jump"@ {
        Some(SettingKey::AutoJump)
    } else if dotted == "options.reduced_debug_info"@ {
        Some(SettingKey::ReducedDebugInfo)
    } else if dotted == "options.gamma"@ {
        Some(SettingKey::Gamma)
    } else if dotted == "gamerules.do_daylight_cycle"@ {
        Some(SettingKey::DoDaylightCycle)
    } else if dotted == "gamerules.do_weather_cycle"@ {
        Some(SettingKey::DoWeatherCycle)
    } else if dotted == "gamerules.time_of_day"@ {
        Some(SettingKey::TimeOfDay)
    } else {
        None
    }
}

/// The preference that a key names, in short or dotted form.
pub fn setting_key(key: &str) -> (r: Option<SettingKey>)
    ensures
        r == key_of(normalized_key(key@)),
{
    let n = normalize_key(key);
    let t = |s: &str| -> (b: bool)
        ensures
            b == (n@ == s@),
        { same_text(n.as_str(), s) };
    if t("defaults.author") {
        Some(SettingKey::Author)
    } else if t("defaults.language") {
        Some(SettingKey::Language)
    } else if t("options.fullscreen") {
        Some(SettingKey::Fullscreen)
    } else if t("options.pause_on_lost_focus") {
        Some(SettingKey::PauseOnLostFocus)
    } else if t("options.auto_jump") {
        Some(SettingKey::AutoJump)
    } else if t("options.reduced_debug_info") {
        Some(SettingKey::ReducedDebugInfo)
    } else if t("options.gamma") {
        Some(SettingKey::Gamma)
    } else if t("gamerules.do_daylight_cycle") {
        Some(SettingKey::DoDaylightCycle)
    } else if t("gamerules.do_weather_cycle") {
        Some(SettingKey::DoWeatherCycle)
    } else if t("gamerules.time_of_day") {
        Some(SettingKey::TimeOfDay)
    } else {
        None
    }
}

/// A checked preference value, ready to store. The gamma value is kept as
/// written; reading it as a number is left to the caller.
#[derive(Debug, PartialEq, Eq)]
pub enum Setting {
    Author(String),
    Language(String),
    Fullscreen(bool),
    PauseOnLostFocus(bool),
    AutoJump(bool),
    ReducedDebugInfo(bool),
    Gamma(String),
    DoDaylightCycle(bool),
    DoWeatherCycle(bool),
    TimeOfDay(String),
}

pub enum SettingView {
    Author(Seq<char>),
    Language(Seq<char>),
    Fullscreen(bool),
    PauseOnLostFocus(bool),
    AutoJump(bool),
    ReducedDebugInfo(bool),
    Gamma(Seq<char>),
    DoDaylightCycle(bool),
    DoWeatherCycle(bool),
    TimeOfDay(Seq<char>),
}

impl View for Setting {
    type V = SettingView;

    open spec fn view(&self) -> SettingView {
        match self {
            Setting::Author(v) => SettingView::Author(v@),
            Setting::Language(v) => SettingView::Language(v@),
            Setting::Fullscreen(b) => SettingView::Fullscreen(*b),
            Setting::PauseOnLostFocus(b) => SettingView::PauseOnLostFocus(*b),
            Setting::AutoJump(b) => SettingView::AutoJump(*b),
            Setting::ReducedDebugInfo(b) => SettingView::ReducedDebugInfo(*b),
            Setting::Gamma(v) => SettingView::Gamma(v@),
            Setting::DoDaylightCycle(b) => SettingView::DoDaylightCycle(*b),
            Setting::DoWeatherCycle(b) => SettingView::DoWeatherCycle(*b),
            Setting::TimeOfDay(v) => SettingView::TimeOfDay(v@),
        }
    }
}

/// The value to store for preference `k` given the text `value`, or `None`
/// when the text is not a valid value.
pub open spec fn setting_for(k: SettingKey, value: Seq<char>) -> Option<SettingView> {
    let b = bool_word(lower_of(value));
    match k {
        SettingKey::Author => Some(SettingView::Author(value)),
        SettingKey::Language => if lower_of(value) == "java"@ || lower_of(value) == "kotlin"@ {
            Some(SettingView::Language(lower_of(value)))
        } else {
            None
        },
        SettingKey::Fullscreen => match b { Some(v) => Some(SettingView::Fullscreen(v)), None => None },
        SettingKey::PauseOnLostFocus => match b { Some(v) => Some(SettingView::PauseOnLostFocus(v)), None => None },
        SettingKey::AutoJump => match b { Some(v) => Some(SettingView::AutoJump(v)), None => None },
        SettingKey::ReducedDebugInfo => match b { Some(v) => Some(SettingView::ReducedDebugInfo(v)), None => None },
        SettingKey::Gamma => Some(SettingView::Gamma(value)),
        SettingKey::DoDaylightCycle => match b { Some(v) => Some(SettingView::DoDaylightCycle(v)), None => None },
        SettingKey::DoWeatherCycle => match b { Some(v) => Some(SettingView::DoWeatherCycle(v)), None => None },
        SettingKey::TimeOfDay => if named_time(lower_of(value)) || u32_of(value) is Some {
            Some(SettingView::TimeOfDay(lower_of(value)))
        } else {
            None
        },
    }
}

/// The message for an invalid value of preference `k`.
pub open spec fn setting_error(k: SettingKey, value: Seq<char>) -> Seq<char> {
    match k {
        SettingKey::Language => invalid_language_message(value),
        SettingKey::TimeOfDay => invalid_time_message(value),
        _ => invalid_bool_message(value),
    }
}

pub open spec fn unknown_key_message(key: Seq<char>) -> Seq<char> {
    "Unknown config key '"@ + key + "'. Run 'mcmod config list' to see valid keys."@
}

/// Checks `value` for the preference that `key` names and gives the value to
/// store.
pub fn parse_setting(key: &str, value: &str) -> (r: Result<Setting, McmodError>)
    ensures
        key_of(normalized_key(key@)) is None ==> (r matches Err(McmodError::Other(m)) && m@
            == unknown_key_message(key@)),
        key_of(normalized_key(key@)) matches Some(k) ==> (setting_for(k, value@) matches Some(sv)
            ==> (r matches Ok(s) && s@ == sv)),
        key_of(normalized_key(key@)) matches Some(k) ==> (setting_for(k, value@) is None ==> (
        r matches Err(McmodError::Other(m)) && m@ == setting_error(k, value@))),
{
    let k = match setting_key(key) {
        Some(k) => k,
        None => {
            let mut m = chars_of("Unknown config key '");
            append_str(&mut m, key);
            append_str(&mut m, "'. Run 'mcmod config list' to see valid keys.");
            return Err(McmodError::Other(string_of(m.as_slice())));
        },
    };
    match k {
        SettingKey::Author => Ok(Setting::Author(value.to_owned())),
        SettingKey::Language => match language_setting(value) {
            Ok(l) => Ok(Setting::Language(l)),
            Err(e) => Err(e),
        },
        SettingKey::Gamma => Ok(Setting::Gamma(value.to_owned())),
        SettingKey::TimeOfDay => match validate_time_of_day(value) {
            Ok(()) => Ok(Setting::TimeOfDay(lowercase(value))),
            Err(e) => Err(e),
        },
        _ => {
            let b = match parse_bool(value) {
                Ok(b) => b,
                Err(e) => {
                    return Err(e);
                },
            };
            match k {
                SettingKey::Fullscreen => Ok(Setting::Fullscreen(b)),
                SettingKey::PauseOnLostFocus => Ok(Setting::PauseOnLostFocus(b)),
                SettingKey::AutoJump => Ok(Setting::AutoJump(b)),
                SettingKey::ReducedDebugInfo => Ok(Setting::ReducedDebugInfo(b)),
                SettingKey::DoDaylightCycle => Ok(Setting::DoDaylightCycle(b)),
                _ => Ok(Setting::DoWeatherCycle(b)),
            }
        },
    }
}

/// The boolean that a lower-cased word stands for.
pub open spec fn bool_word(lower: Seq<char>) -> Option<bool> {
    if lower == "true"@ || lower == "yes"@ || lower == "1"@ {
        Some(true)
    } else if lower == "false"@ || lower == "no"@ || lower == "0"@ {
        Some(false)
    } else {
        None
    }
}

pub open spec fn invalid_bool_message(value: Seq<char>) -> Seq<char> {
    "Invalid boolean '"@ + value + "': must be true/false/yes/no/1/0"@
}

/// Reads a boolean from `value`, given its lower-cased form `lower`.
pub fn parse_bool_lowered(lower: &str, value: &str) -> (r: Result<bool, McmodError>)
    ensures
        bool_word(lower@) matches Some(b) ==> r == Ok::<bool, McmodError>(b),
        bool_word(lower@) is None ==> (r matches Err(McmodError::Other(m)) && m@
            == invalid_bool_message(value@)),
{
    if same_text(lower, "true") || same_text(lower, "yes") || same_text(lower, "1") {
        Ok(true)
    } else if same_text(lower, "false") || same_text(lower, "no") || same_text(lower, "0") {
        Ok(false)
    } else {
        let mut m = chars_of("Invalid boolean '");
        append_str(&mut m, value);
        append_str(&mut m, "': must be true/false/yes/no/1/0");
        Err(McmodError::Other(string_of(m.as_slice())))
    }
}

/// Reads a boolean: true/yes/1 or false/no/0, in any case.
pub fn parse_bool(value: &str) -> (r: Result<bool, McmodError>)
    ensures
        bool_word(lower_of(value@)) matches Some(b) ==> r == Ok::<bool, McmodError>(b),
        bool_word(lower_of(value@)) is None ==> (r matches Err(McmodError::Other(m)) && m@
            == invalid_bool_message(value@)),
{
    let lower = lowercase(value);
    parse_bool_lowered(lower.as_str(), value)
}

pub open spec fn invalid_language_message(value: Seq<char>) -> Seq<char> {
    "Invalid language '"@ + value + "': must be 'java' or 'kotlin'"@
}

/// The default language to store for `value`, given its lower-cased form
/// `lower`: java or kotlin.
pub fn language_setting_lowered(lower: String, value: &str) -> (r: Result<String, McmodError>)
    ensures
        (lower@ == "java"@ || lower@ == "kotlin"@) ==> (r matches Ok(l) && l@ == lower@),
        !(lower@ == "java"@ || lower@ == "kotlin"@) ==> (r matches Err(McmodError::Other(m)) && m@
            == invalid_language_message(value@)),
{
    if same_text(lower.as_str(), "java") || same_text(lower.as_str(), "kotlin") {
        Ok(lower)
    } else {
        let mut m = chars_of("Invalid language '");
        append_str(&mut m, value);
        append_str(&mut m, "': must be 'java' or 'kotlin'");
        Err(McmodError::Other(string_of(m.as_slice())))
    }
}

/// The default language to store for `value`: java or kotlin in any case,
/// stored lower-cased.
pub fn language_setting(value: &str) -> (r: Result<String, McmodError>)
    ensures
        (lower_of(value@) == "java"@ || lower_of(value@) == "kotlin"@) ==> (r matches Ok(l) && l@
            == lower_of(value@)),
        !(lower_of(value@) == "java"@ || lower_of(value@) == "kotlin"@) ==> (r matches Err(
            McmodError::Other(m),
        ) && m@ == invalid_language_message(value@)),
{
    let lower = lowercase(value);
    language_setting_lowered(lower, value)
}

pub open spec fn is_digit(c: char) -> bool {
    '0' <= c && c <= '9'
}

pub open spec fn digit_value(c: char) -> nat {
    (c as u32 - '0' as u32) as nat
}

/// The number that a string of decimal digits writes.
pub open spec fn digits_value(s: Seq<char>) -> nat
    decreases s.len(),
{
    if s.len() == 0 {
        0
    } else {
        digits_value(s.drop_last()) * 10 + digit_value(s.last())
    }
}

/// `s` without a leading `+`.
pub open spec fn unsigned_body(s: Seq<char>) -> Seq<char> {
    if s.len() > 0 && s[0] == '+' { s.drop_first() } else { s }
}

pub open spec fn all_digits(s: Seq<char>) -> bool {
    forall|i: int| 0 <= i < s.len() ==> is_digit(#[trigger] s[i])
}

/// What `str::parse::<u32>` gives: an optional `+`, then one or more decimal
/// digits whose value fits in 32 bits.
pub open spec fn u32_of(s: Seq<char>) -> Option<u32> {
    let body = unsigned_body(s);
    if body.len() > 0 && all_digits(body) && digits_value(body) <= u32::MAX {
        Some(digits_value(body) as u32)
    } else {
        None
    }
}

proof fn lemma_digits_grow(s: Seq<char>, j: int)
    requires
        0 <= j <= s.len(),
    ensures
        digits_value(s.take(j)) <= digits_value(s),
    decreases s.len(),
{
    if j < s.len() {
        assert(s.drop_last().take(j) =~= s.take(j));
        lemma_digits_grow(s.drop_last(), j);
    } else {
        assert(s.take(j) =~= s);
    }
}

/// Parses an unsigned 32-bit decimal number as `str::parse::<u32>` does.
pub fn parse_u32(s: &str) -> (r: Option<u32>)
    ensures
        r == u32_of(s@),
{
    let cs = chars_of(s);
    let start: usize = if cs.len() > 0 && cs[0] == '+' { 1 } else { 0 };
    let ghost body = unsigned_body(s@);
    assert(body =~= s@.skip(start as int));
    if start >= cs.len() {
        return None;
    }
    let mut acc: u64 = 0;
    let mut i: usize = start;
    while i < cs.len()
        invariant
            cs@ == s@,
            body == unsigned_body(s@),
            body == s@.skip(start as int),
            start <= i <= cs@.len(),
            acc as nat == digits_value(body.take(i - start)),
            acc <= u32::MAX,
            forall|j: int| 0 <= j < i - start ==> is_digit(#[trigger] body[j]),
        decreases cs@.len() - i,
    {
        let c = cs[i];
        let ghost k = i - start;
        assert(body[k] == c);
        if !('0' <= c && c <= '9') {
            assert(!is_digit(body[k]));
            assert(!all_digits(body));
            return None;
        }
        assert(body.take(k + 1).drop_last() =~= body.take(k));
        acc = acc * 10 + (c as u64 - '0' as u64);
        assert(acc as nat == digits_value(body.take(k + 1)));
        i = i + 1;
        if acc > u32::MAX as u64 {
            proof {
                lemma_digits_grow(body, k + 1);
            }
            assert(digits_value(body) > u32::MAX);
            return None;
        }
    }
    assert(body.take(i - start) =~= body);
    Some(acc as u32)
}

/// The named times of day, lower-cased.
pub open spec fn named_time(lower: Seq<char>) -> bool {
    lower == "noon"@ || lower == "day"@ || lower == "midnight"@ || lower == "night"@
        || lower == "sunrise"@ || lower == "sunset"@
}

pub open spec fn invalid_time_message(value: Seq<char>) -> Seq<char> {
    "Invalid time '"@ + value
        + "': must be noon/day/midnight/night/sunrise/sunset or a tick number"@
}

/// Accepts a time of day, given its lower-cased form `lower`: a named time or
/// a tick number.
pub fn validate_time_of_day_lowered(lower: &str, value: &str) -> (r: Result<(), McmodError>)
    ensures
        r is Ok <==> (named_time(lower@) || u32_of(value@) is Some),
        r matches Err(e) ==> (e matches McmodError::Other(m) && m@ == invalid_time_message(value@)),
{
    if same_text(lower, "noon") || same_text(lower, "day") || same_text(lower, "midnight")
        || same_text(lower, "night") || same_text(lower, "sunrise") || same_text(lower, "sunset") {
        return Ok(());
    }
    match parse_u32(value) {
        Some(_) => Ok(()),
        None => {
            let mut m = chars_of("Invalid time '");
            append_str(&mut m, value);
            append_str(&mut m, "': must be noon/day/midnight/night/sunrise/sunset or a tick number");
            Err(McmodError::Other(string_of(m.as_slice())))
        },
    }
}

/// Accepts a time of day: noon, day, midnight, night, sunrise or sunset in any
/// case, or a tick number.
pub fn validate_time_of_day(value: &str) -> (r: Result<(), McmodError>)
    ensures
        r is Ok <==> (named_time(lower_of(value@)) || u32_of(value@) is Some),
        r matches Err(e) ==> (e matches McmodError::Other(m) && m@ == invalid_time_message(value@)),
{
    let lower = lowercase(value);
    validate_time_of_day_lowered(lower.as_str(), value)
}

/// The `time set` argument for a time of day, given its lower-cased form.
pub open spec fn tick_of(lower: Seq<char>, time: Seq<char>) -> Seq<char> {
    if lower == "noon"@ || lower == "day"@ {
        "day"@
    } else if lower == "midnight"@ || lower == "night"@ {
        "midnight"@
    } else if lower == "sunrise"@ {
        "23000"@
    } else if lower == "sunset"@ {
        "12000"@
    } else {
        time
    }
}

/// The `time set` argument for a time of day, given its lower-cased form
/// `lower`; a tick number is passed through.
pub fn time_to_tick_lowered<'a>(lower: &str, time: &'a str) -> (r: &'a str)
    ensures
        r@ == tick_of(lower@, time@),
{
    if same_text(lower, "noon") || same_text(lower, "day") {
        "day"
    } else if same_text(lower, "midnight") || same_text(lower, "night") {
        "midnight"
    } else if same_text(lower, "sunrise") {
        "23000"
    } else if same_text(lower, "sunset") {
        "12000"
    } else {
        time
    }
}

/// Converts a time of day to its `time set` argument.
pub fn time_to_tick<'a>(time: &'a str) -> (r: &'a str)
    ensures
        r@ == tick_of(lower_of(time@), time@),
{
    let lower = lowercase(time);
    time_to_tick_lowered(lower.as_str(), time)
}

/// What follows the second dot of a version, if it has two dots.
pub open spec fn patch_part(v: Seq<char>) -> Option<Seq<char>> {
    let parts = split_on(v, '.');
    if parts.len() >= 3 {
        Some(join_with(parts.skip(2), '.'))
    } else {
        None
    }
}

/// The data pack format `(major, minor)` of a game version. Unknown versions
/// are guessed from their patch number, else given 1.21.4's format.
pub open spec fn pack_format(v: Seq<char>) -> (u32, u32) {
    if v == "1.21"@ || v == "1.21.1"@ {
        (48, 0)
    } else if v == "1.21.2"@ || v == "1.21.3"@ {
        (57, 0)
    } else if v == "1.21.4"@ {
        (61, 0)
    } else if v == "1.21.5"@ {
        (71, 0)
    } else if v == "1.21.6"@ {
        (80, 0)
    } else if v == "1.21.7"@ || v == "1.21.8"@ {
        (81, 0)
    } else if v == "1.21.9"@ || v == "1.21.10"@ {
        (88, 0)
    } else if v == "1.21.11"@ {
        (94, 1)
    } else {
        match patch_part(v) {
            Some(p) => match u32_of(p) {
                Some(n) => if n >= 11 {
                    (94, 1)
                } else if n >= 9 {
                    (88, 0)
                } else {
                    (61, 0)
                },
                None => (61, 0),
            },
            None => (61, 0),
        }
    }
}

/// Maps a game version to its data pack format `(major, minor)`.
pub fn mc_version_to_pack_format(mc_version: &str) -> (r: (u32, u32))
    ensures
        r == pack_format(mc_version@),
{
    let t = |s: &str| -> (b: bool)
        ensures
            b == (mc_version@ == s@),
        { same_text(mc_version, s) };
    if t("1.21") || t("1.21.1") {
        return (48, 0);
    } else if t("1.21.2") || t("1.21.3") {
        return (57, 0);
    } else if t("1.21.4") {
        return (61, 0);
    } else if t("1.21.5") {
        return (71, 0);
    } else if t("1.21.6") {
        return (80, 0);
    } else if t("1.21.7") || t("1.21.8") {
        return (81, 0);
    } else if t("1.21.9") || t("1.21.10") {
        return (88, 0);
    } else if t("1.21.11") {
        return (94, 1);
    }
    let cs = chars_of(mc_version);
    let parts = crate::text::split_chars(cs.as_slice(), '.');
    if parts.len() >= 3 {
        let mut rest: Vec<Vec<char>> = Vec::new();
        let mut i: usize = 2;
        while i < parts.len()
            invariant
                2 <= i <= parts@.len(),
                crate::text::views(parts@) == split_on(mc_version@, '.'),
                crate::text::views(rest@) == split_on(mc_version@, '.').subrange(2, i as int),
            decreases parts@.len() - i,
        {
            let ghost before = crate::text::views(rest@);
            let mut piece: Vec<char> = Vec::new();
            crate::text::append_chars(&mut piece, parts[i].as_slice());
            assert(piece@ =~= parts@[i as int]@);
            let ghost pv = piece@;
            rest.push(piece);
            assert(crate::text::views(parts@)[i as int] == parts@[i as int]@);
            assert(crate::text::views(rest@) =~= before.push(pv));
            assert(crate::text::views(rest@) =~= split_on(mc_version@, '.').subrange(2, i + 1));
            i = i + 1;
        }
        assert(split_on(mc_version@, '.').subrange(2, i as int) =~= split_on(mc_version@, '.').skip(2));
        let tail = crate::text::join_chars(&rest, '.');
        let tail = string_of(tail.as_slice());
        match parse_u32(tail.as_str()) {
            Some(n) => {
                if n >= 11 {
                    return (94, 1);
                } else if n >= 9 {
                    return (88, 0);
                }
            },
            None => {},
        }
    }
    (61, 0)
}

/// Whether a game version uses the `min_format`/`max_format` pack metadata.
pub fn uses_new_pack_format(mc_version: &str) -> (r: bool)
    ensures
        r == (pack_format(mc_version@).0 >= 88),
{
    let (major, _) = mc_version_to_pack_format(mc_version);
    major >= 88
}

/// The `pack.mcmeta` text for a game version.
pub open spec fn pack_mcmeta(v: Seq<char>) -> Seq<char> {
    let (major, minor) = pack_format(v);
    let a = decimal(major as nat);
    let b = decimal(minor as nat);
    let description = "    \"description\": \"Dev defaults (generated by mcmod)\"\n  }\n}\n"@;
    if major >= 88 {
        if minor > 0 {
            "{\n  \"pack\": {\n    \"pack_format\": ["@ + a + ", "@ + b + "],\n    \"min_format\": ["@ + a
                + ", 0],\n    \"max_format\": ["@ + a + ", "@ + b + "],\n"@ + description
        } else {
            "{\n  \"pack\": {\n    \"pack_format\": "@ + a + ",\n    \"min_format\": "@ + a
                + ",\n    \"max_format\": "@ + a + ",\n"@ + description
        }
    } else {
        "{\n  \"pack\": {\n    \"pack_format\": "@ + a + ",\n"@ + description
    }
}

/// Renders the `pack.mcmeta` of the dev-defaults data pack for a game version.
pub fn render_pack_mcmeta(mc_version: &str) -> (r: String)
    ensures
        r@ == pack_mcmeta(mc_version@),
{
    let (major, minor) = mc_version_to_pack_format(mc_version);
    let mut a: Vec<char> = Vec::new();
    push_decimal(&mut a, major as u64);
    let mut b: Vec<char> = Vec::new();
    push_decimal(&mut b, minor as u64);
    let description = "    \"description\": \"Dev defaults (generated by mcmod)\"\n  }\n}\n";
    let mut out: Vec<char> = Vec::new();
    if major >= 88 {
        if minor > 0 {
            append_str(&mut out, "{\n  \"pack\": {\n    \"pack_format\": [");
            crate::text::append_chars(&mut out, a.as_slice());
            append_str(&mut out, ", ");
            crate::text::append_chars(&mut out, b.as_slice());
            append_str(&mut out, "],\n    \"min_format\": [");
            crate::text::append_chars(&mut out, a.as_slice());
            append_str(&mut out, ", 0],\n    \"max_format\": [");
            crate::text::append_chars(&mut out, a.as_slice());
            append_str(&mut out, ", ");
            crate::text::append_chars(&mut out, b.as_slice());
            append_str(&mut out, "],\n");
        } else {
            append_str(&mut out, "{\n  \"pack\": {\n    \"pack_format\": ");
            crate::text::append_chars(&mut out, a.as_slice());
            append_str(&mut out, ",\n    \"min_format\": ");
            crate::text::append_chars(&mut out, a.as_slice());
            append_str(&mut out, ",\n    \"max_format\": ");
            crate::text::append_chars(&mut out, a.as_slice());
            append_str(&mut out, ",\n");
        }
    } else {
        append_str(&mut out, "{\n  \"pack\": {\n    \"pack_format\": ");
        crate::text::append_chars(&mut out, a.as_slice());
        append_str(&mut out, ",\n");
    }
    append_str(&mut out, description);
    assert(out@ =~= pack_mcmeta(mc_version@));
    string_of(out.as_slice())
}

pub open spec fn bool_text(b: bool) -> Seq<char> {
    if b { "true"@ } else { "false"@ }
}

/// The commands of the dev-defaults load function, given the lower-cased
/// time of day (when one is set).
pub open spec fn init_commands(g: GameRuleDefaults, lower_time: Seq<char>) -> Seq<Seq<char>> {
    let a = match g.do_daylight_cycle {
        Some(v) => seq!["gamerule doDaylightCycle "@ + bool_text(v)],
        None => Seq::<Seq<char>>::empty(),
    };
    let b = match g.do_weather_cycle {
        Some(v) => seq!["gamerule doWeatherCycle "@ + bool_text(v)],
        None => Seq::<Seq<char>>::empty(),
    };
    let c = match g.time_of_day {
        Some(t) => seq!["time set "@ + tick_of(lower_time, t@)],
        None => Seq::<Seq<char>>::empty(),
    };
    a + b + c
}

/// The text of the dev-defaults load function: one command per line, with a
/// final newline when there is any command.
pub open spec fn init_function(g: GameRuleDefaults, lower_time: Seq<char>) -> Seq<char> {
    let cmds = init_commands(g, lower_time);
    if cmds.len() == 0 {
        Seq::<char>::empty()
    } else {
        join_with(cmds.push(Seq::<char>::empty()), '\n')
    }
}

fn push_line(lines: &mut Vec<Vec<char>>, line: Vec<char>)
    ensures
        crate::text::views(final(lines)@) == crate::text::views(old(lines)@).push(line@),
{
    let ghost before = lines@;
    lines.push(line);
    assert(crate::text::views(lines@) =~= crate::text::views(before).push(line@));
}

/// Renders the dev-defaults load function for the game rules `g`, given the
/// lower-cased time of day `lower_time` (ignored when no time is set).
pub fn render_init_function_lowered(g: &GameRuleDefaults, lower_time: &str) -> (r: String)
    ensures
        r@ == init_function(*g, lower_time@),
{
    let mut lines: Vec<Vec<char>> = Vec::new();
    match g.do_daylight_cycle {
        Some(v) => {
            let mut l = chars_of("gamerule doDaylightCycle ");
            append_str(&mut l, if v { "true" } else { "false" });
            push_line(&mut lines, l);
        },
        None => {},
    }
    match g.do_weather_cycle {
        Some(v) => {
            let mut l = chars_of("gamerule doWeatherCycle ");
            append_str(&mut l, if v { "true" } else { "false" });
            push_line(&mut lines, l);
        },
        None => {},
    }
    match &g.time_of_day {
        Some(t) => {
            let mut l = chars_of("time set ");
            append_str(&mut l, time_to_tick_lowered(lower_time, t.as_str()));
            push_line(&mut lines, l);
        },
        None => {},
    }
    assert(crate::text::views(lines@) =~= init_commands(*g, lower_time@));
    if lines.len() == 0 {
        return String::new();
    }
    push_line(&mut lines, Vec::new());
    let out = crate::text::join_chars(&lines, '\n');
    string_of(out.as_slice())
}

/// Renders the dev-defaults load function for the game rules `g`.
pub fn render_init_function(g: &GameRuleDefaults) -> (r: String)
    ensures
        g.time_of_day matches Some(t) ==> r@ == init_function(*g, lower_of(t@)),
        g.time_of_day is None ==> r@ == init_function(*g, Seq::<char>::empty()),
{
    match &g.time_of_day {
        Some(t) => {
            let lower = lowercase(t.as_str());
            render_init_function_lowered(g, lower.as_str())
        },
        None => render_init_function_lowered(g, ""),
    }
}

} // verus!
