use mcmod::template::{build_vars_with_year, chrono_year, render, year_from_seconds, TemplateVars};

#[test]
fn test_render_simple() {
    let mut vars = TemplateVars::new();
    vars.insert("name".to_string(), "World".to_string());
    vars.insert("greeting".to_string(), "Hello".to_string());
    assert_eq!(render("{{greeting}}, {{name}}!", &vars), "Hello, World!");
}

#[test]
fn test_render_no_placeholders() {
    let vars = TemplateVars::new();
    assert_eq!(render("no placeholders here", &vars), "no placeholders here");
}

#[test]
fn test_render_multiple_occurrences() {
    let mut vars = TemplateVars::new();
    vars.insert("x".to_string(), "A".to_string());
    assert_eq!(render("{{x}} and {{x}}", &vars), "A and A");
}

#[test]
fn insert_replaces_in_place() {
    let mut vars = TemplateVars::new();
    vars.insert("a".to_string(), "1".to_string());
    vars.insert("b".to_string(), "2".to_string());
    vars.insert("a".to_string(), "3".to_string());
    assert_eq!(vars.entries.len(), 2);
    assert_eq!(vars.get("a"), Some(&"3".to_string()));
    assert_eq!(vars.get("c"), None);
    assert_eq!(render("{{a}}{{b}}{{c}}", &vars), "32{{c}}");
}

#[test]
fn standard_vars_derive_path_and_major() {
    let vars = build_vars_with_year(
        "mymod", "My Mod", "com.example.mymod", "MymodMod", "Me", "Desc", "java", "1.21.4",
        "0.16.9", "0.111.0+1.21.4", "21.4.156", "fabric,neoforge", "2025",
    );
    assert_eq!(vars.entries.len(), 15);
    assert_eq!(vars.get("package_path"), Some(&"com/example/mymod".to_string()));
    assert_eq!(vars.get("neoforge_major"), Some(&"21.4".to_string()));
    assert_eq!(vars.get("year"), Some(&"2025".to_string()));
    assert_eq!(render("{{enabled_platforms}}", &vars), "fabric,neoforge");
}

#[test]
fn year_from_epoch_seconds() {
    assert_eq!(year_from_seconds(0), "1970");
    assert_eq!(year_from_seconds(31557600 * 55), "2025");
    let y = chrono_year();
    assert_eq!(y.len(), 4);
}
