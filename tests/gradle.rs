use mcmod::gradle::{add_include_to_settings, add_platform_to_gradle_properties, set_gradle_property};

const SETTINGS: &str = "pluginManagement {\n}\ninclude(\"common\")\nrootProject.name = \"mymod\"\n";

#[test]
fn include_goes_after_last_include() {
    let out = add_include_to_settings(SETTINGS, "fabric");
    assert_eq!(
        out,
        "pluginManagement {\n}\ninclude(\"common\")\ninclude(\"fabric\")\nrootProject.name = \"mymod\"\n"
    );
}

#[test]
fn include_goes_before_root_name_without_includes() {
    let out = add_include_to_settings("a\n  rootProject.name = \"x\"\nb", "fabric");
    assert_eq!(out, "a\ninclude(\"fabric\")\n  rootProject.name = \"x\"\nb");
}

#[test]
fn include_appended_when_no_anchor() {
    assert_eq!(add_include_to_settings("", "fabric"), "include(\"fabric\")");
    assert_eq!(add_include_to_settings("a\n", "fabric"), "a\ninclude(\"fabric\")\n");
}

#[test]
fn include_twice_is_same_as_once() {
    let once = add_include_to_settings(SETTINGS, "neoforge");
    let twice = add_include_to_settings(&once, "neoforge");
    assert_eq!(once, twice);
    assert_eq!(add_include_to_settings(SETTINGS, "common"), SETTINGS);
}

#[test]
fn includes_keep_insertion_order() {
    let ab = add_include_to_settings(&add_include_to_settings(SETTINGS, "a"), "b");
    let ba = add_include_to_settings(&add_include_to_settings(SETTINGS, "b"), "a");
    assert!(ab.find("include(\"a\")").unwrap() < ab.find("include(\"b\")").unwrap());
    assert!(ba.find("include(\"b\")").unwrap() < ba.find("include(\"a\")").unwrap());
}

#[test]
fn blank_trailing_lines_are_kept() {
    let out = add_include_to_settings("include(\"common\")\n\n", "fabric");
    assert_eq!(out, "include(\"common\")\ninclude(\"fabric\")\n\n");
}

#[test]
fn set_property_replaces_first_match_only() {
    let props = "a=1\nmod_language=java\nb=2\nmod_language=x\n";
    assert_eq!(
        set_gradle_property(props, "mod_language", "kotlin"),
        "a=1\nmod_language=kotlin\nb=2\nmod_language=x\n"
    );
}

#[test]
fn set_property_uncomments() {
    let props = "a=1\n# kotlin_version=1.9\n";
    assert_eq!(set_gradle_property(props, "kotlin_version", "2.1.0"), "a=1\nkotlin_version=2.1.0\n");
}

#[test]
fn set_property_appends_one_line() {
    assert_eq!(set_gradle_property("a=1\nb=2\n", "c", "3"), "a=1\nb=2\nc=3\n");
    assert_eq!(set_gradle_property("a=1", "c", "3"), "a=1\nc=3");
    assert_eq!(set_gradle_property("", "c", "3"), "c=3");
    assert_eq!(set_gradle_property("ab=1\n", "a", "2"), "ab=1\na=2\n");
}

#[test]
fn platform_added_at_end() {
    let props = "x=1\nenabled_platforms=common, fabric\ny=2\n";
    assert_eq!(
        add_platform_to_gradle_properties(props, "neoforge"),
        "x=1\nenabled_platforms=common,fabric,neoforge\ny=2\n"
    );
}

#[test]
fn platform_already_present_changes_nothing() {
    let props = "enabled_platforms=fabric, common\n";
    assert_eq!(add_platform_to_gradle_properties(props, "fabric"), props);
    assert_eq!(add_platform_to_gradle_properties(props, "common"), props);
}

#[test]
fn platform_without_list_changes_nothing() {
    let props = "x=1\n# enabled_platforms=fabric\n";
    assert_eq!(add_platform_to_gradle_properties(props, "neoforge"), props);
}

#[test]
fn platform_empty_list() {
    assert_eq!(add_platform_to_gradle_properties("enabled_platforms=", "fabric"), "enabled_platforms=,fabric");
}
