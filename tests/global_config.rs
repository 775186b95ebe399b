use mcmod::global_config::{
    language_setting, parse_setting, setting_key, Setting, SettingKey,
    mc_version_to_pack_format, normalize_key, parse_bool, parse_u32, render_init_function,
    render_pack_mcmeta, time_to_tick, uses_new_pack_format, validate_time_of_day,
    GameRuleDefaults, GlobalDefaults,
};

#[test]
fn test_normalize_key_defaults() {
    assert_eq!(normalize_key("author"), "defaults.author");
    assert_eq!(normalize_key("language"), "defaults.language");
}

#[test]
fn test_normalize_key_options() {
    assert_eq!(normalize_key("fullscreen"), "options.fullscreen");
    assert_eq!(normalize_key("pauseOnLostFocus"), "options.pause_on_lost_focus");
    assert_eq!(normalize_key("pause_on_lost_focus"), "options.pause_on_lost_focus");
    assert_eq!(normalize_key("autoJump"), "options.auto_jump");
    assert_eq!(normalize_key("auto_jump"), "options.auto_jump");
    assert_eq!(normalize_key("gamma"), "options.gamma");
}

#[test]
fn test_normalize_key_gamerules() {
    assert_eq!(normalize_key("doDaylightCycle"), "gamerules.do_daylight_cycle");
    assert_eq!(normalize_key("do_daylight_cycle"), "gamerules.do_daylight_cycle");
    assert_eq!(normalize_key("doWeatherCycle"), "gamerules.do_weather_cycle");
    assert_eq!(normalize_key("timeOfDay"), "gamerules.time_of_day");
    assert_eq!(normalize_key("time_of_day"), "gamerules.time_of_day");
}

#[test]
fn test_parse_bool() {
    assert!(parse_bool("true").unwrap());
    assert!(parse_bool("yes").unwrap());
    assert!(parse_bool("1").unwrap());
    assert!(!parse_bool("false").unwrap());
    assert!(!parse_bool("no").unwrap());
    assert!(!parse_bool("0").unwrap());
    assert!(parse_bool("maybe").is_err());
}

#[test]
fn test_validate_time_of_day() {
    assert!(validate_time_of_day("noon").is_ok());
    assert!(validate_time_of_day("day").is_ok());
    assert!(validate_time_of_day("midnight").is_ok());
    assert!(validate_time_of_day("night").is_ok());
    assert!(validate_time_of_day("sunrise").is_ok());
    assert!(validate_time_of_day("sunset").is_ok());
    assert!(validate_time_of_day("6000").is_ok());
    assert!(validate_time_of_day("banana").is_err());
}

#[test]
fn test_time_to_tick() {
    assert_eq!(time_to_tick("noon"), "day");
    assert_eq!(time_to_tick("day"), "day");
    assert_eq!(time_to_tick("midnight"), "midnight");
    assert_eq!(time_to_tick("night"), "midnight");
    assert_eq!(time_to_tick("sunrise"), "23000");
    assert_eq!(time_to_tick("sunset"), "12000");
    assert_eq!(time_to_tick("6000"), "6000");
}

#[test]
fn test_mc_version_to_pack_format() {
    assert_eq!(mc_version_to_pack_format("1.21"), (48, 0));
    assert_eq!(mc_version_to_pack_format("1.21.1"), (48, 0));
    assert_eq!(mc_version_to_pack_format("1.21.2"), (57, 0));
    assert_eq!(mc_version_to_pack_format("1.21.3"), (57, 0));
    assert_eq!(mc_version_to_pack_format("1.21.4"), (61, 0));
    assert_eq!(mc_version_to_pack_format("1.21.5"), (71, 0));
    assert_eq!(mc_version_to_pack_format("1.21.6"), (80, 0));
    assert_eq!(mc_version_to_pack_format("1.21.7"), (81, 0));
    assert_eq!(mc_version_to_pack_format("1.21.8"), (81, 0));
    assert_eq!(mc_version_to_pack_format("1.21.9"), (88, 0));
    assert_eq!(mc_version_to_pack_format("1.21.10"), (88, 0));
    assert_eq!(mc_version_to_pack_format("1.21.11"), (94, 1));
}

#[test]
fn test_uses_new_pack_format() {
    assert!(!uses_new_pack_format("1.21.4"));
    assert!(!uses_new_pack_format("1.21.8"));
    assert!(uses_new_pack_format("1.21.9"));
    assert!(uses_new_pack_format("1.21.11"));
}

#[test]
fn test_render_pack_mcmeta_old_format() {
    let mcmeta = render_pack_mcmeta("1.21.4");
    assert!(mcmeta.contains("\"pack_format\": 61"));
    assert!(!mcmeta.contains("min_format"));
    assert!(!mcmeta.contains("max_format"));
}

#[test]
fn test_render_pack_mcmeta_new_format_no_minor() {
    let mcmeta = render_pack_mcmeta("1.21.9");
    assert!(mcmeta.contains("\"pack_format\": 88"));
    assert!(mcmeta.contains("\"min_format\": 88"));
    assert!(mcmeta.contains("\"max_format\": 88"));
}

#[test]
fn test_render_pack_mcmeta_new_format_with_minor() {
    let mcmeta = render_pack_mcmeta("1.21.11");
    assert!(mcmeta.contains("\"pack_format\": [94, 1]"));
    assert!(mcmeta.contains("\"min_format\": [94, 0]"));
    assert!(mcmeta.contains("\"max_format\": [94, 1]"));
}

#[test]
fn test_unknown_version_fallback() {
    assert_eq!(mc_version_to_pack_format("1.21.15"), (94, 1));
    assert_eq!(mc_version_to_pack_format("1.22"), (61, 0));
}

#[test]
fn pack_format_guesses_from_patch() {
    assert_eq!(mc_version_to_pack_format("1.22.9"), (88, 0));
    assert_eq!(mc_version_to_pack_format("1.22.3"), (61, 0));
    assert_eq!(mc_version_to_pack_format("1.21.12.1"), (61, 0));
    assert_eq!(mc_version_to_pack_format("1.21.+12"), (94, 1));
}

#[test]
fn pack_mcmeta_old_format_text() {
    assert_eq!(
        render_pack_mcmeta("1.21.4"),
        "{\n  \"pack\": {\n    \"pack_format\": 61,\n    \"description\": \"Dev defaults (generated by mcmod)\"\n  }\n}\n"
    );
}

#[test]
fn unknown_keys_kept_and_case_words() {
    assert_eq!(normalize_key("options.gamma"), "options.gamma");
    assert_eq!(normalize_key("whatever"), "whatever");
    assert!(parse_bool("YES").unwrap());
    assert!(!parse_bool("False").unwrap());
    assert_eq!(time_to_tick("NOON"), "day");
    assert!(validate_time_of_day("Sunset").is_ok());
}

#[test]
fn error_messages_name_the_value() {
    let e = parse_bool("maybe").unwrap_err();
    assert_eq!(
        e,
        mcmod::error::McmodError::Other(
            "Invalid boolean 'maybe': must be true/false/yes/no/1/0".to_string()
        )
    );
    assert!(validate_time_of_day("-5").is_err());
    assert!(validate_time_of_day("4294967296").is_err());
    assert!(validate_time_of_day("4294967295").is_ok());
}

#[test]
fn parse_u32_like_std() {
    for s in ["0", "+7", "4294967295", "4294967296", "", "+", "-1", "12a", "007"] {
        assert_eq!(parse_u32(s), s.parse::<u32>().ok(), "{s}");
    }
}

#[test]
fn init_function_from_game_rules() {
    let g = GameRuleDefaults::default();
    assert_eq!(
        render_init_function(&g),
        "gamerule doDaylightCycle false\ngamerule doWeatherCycle false\ntime set day\n"
    );
    let none = GameRuleDefaults { do_daylight_cycle: None, do_weather_cycle: None, time_of_day: None };
    assert_eq!(render_init_function(&none), "");
    let tick = GameRuleDefaults {
        do_daylight_cycle: Some(true),
        do_weather_cycle: None,
        time_of_day: Some("6000".to_string()),
    };
    assert_eq!(render_init_function(&tick), "gamerule doDaylightCycle true\ntime set 6000\n");
}

#[test]
fn global_defaults_start_empty() {
    let d = GlobalDefaults::default();
    assert!(d.author.is_none() && d.language.is_none());
}

#[test]
fn language_setting_lowercases() {
    assert_eq!(language_setting("Kotlin"), Ok("kotlin".to_string()));
    assert_eq!(language_setting("java"), Ok("java".to_string()));
    assert_eq!(
        language_setting("Scala"),
        Err(mcmod::error::McmodError::Other("Invalid language 'Scala': must be 'java' or 'kotlin'".to_string()))
    );
}

#[test]
fn settings_checked_by_key() {
    assert_eq!(setting_key("timeOfDay"), Some(SettingKey::TimeOfDay));
    assert_eq!(setting_key("options.gamma"), Some(SettingKey::Gamma));
    assert_eq!(setting_key("volume"), None);
    assert_eq!(parse_setting("author", "Jane"), Ok(Setting::Author("Jane".to_string())));
    assert_eq!(parse_setting("language", "KOTLIN"), Ok(Setting::Language("kotlin".to_string())));
    assert_eq!(parse_setting("autoJump", "yes"), Ok(Setting::AutoJump(true)));
    assert_eq!(parse_setting("do_weather_cycle", "0"), Ok(Setting::DoWeatherCycle(false)));
    assert_eq!(parse_setting("timeOfDay", "Sunset"), Ok(Setting::TimeOfDay("sunset".to_string())));
    assert_eq!(parse_setting("gamma", "1.5"), Ok(Setting::Gamma("1.5".to_string())));
    assert_eq!(
        parse_setting("volume", "3"),
        Err(mcmod::error::McmodError::Other(
            "Unknown config key 'volume'. Run 'mcmod config list' to see valid keys.".to_string()
        ))
    );
    assert!(parse_setting("fullscreen", "maybe").is_err());
    assert!(parse_setting("timeOfDay", "dusk").is_err());
}
