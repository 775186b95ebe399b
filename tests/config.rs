use mcmod::config::{McmodConfig, Versions};

fn sample(fabric: bool, neoforge: bool) -> McmodConfig {
    McmodConfig::new(
        "mymod".to_string(),
        "My Mod".to_string(),
        "com.example.mymod".to_string(),
        "Author".to_string(),
        "Desc".to_string(),
        "java".to_string(),
        fabric,
        neoforge,
        false,
        Versions::default(),
    )
}

#[test]
fn test_enabled_platforms() {
    let config = sample(true, false);
    assert_eq!(config.enabled_platforms(), vec!["fabric"]);

    let config2 = sample(true, true);
    assert_eq!(config2.enabled_platforms(), vec!["fabric", "neoforge"]);
}

#[test]
fn enabled_platforms_none_and_neoforge_only() {
    assert!(sample(false, false).enabled_platforms().is_empty());
    assert_eq!(sample(false, true).enabled_platforms(), vec!["neoforge"]);
}

#[test]
fn default_versions() {
    let v = Versions::default();
    assert_eq!(v.minecraft, "1.21.4");
    assert_eq!(v.fabric_loader, "0.16.9");
    assert_eq!(v.fabric_api, "0.111.0+1.21.4");
    assert_eq!(v.neoforge, "21.4.156");
}

#[test]
fn config_path_joins_directory() {
    assert_eq!(McmodConfig::config_path("proj"), "proj/mcmod.toml");
    assert_eq!(McmodConfig::config_path("proj/"), "proj/mcmod.toml");
    assert_eq!(McmodConfig::config_path(""), "mcmod.toml");
}
