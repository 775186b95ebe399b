use std::collections::HashMap;

use mcmod::add::{
    add_ci_files, check_addable, add_fabric_files, cleanup_empty_dirs, plan_feature, run, CleanupAction, FileStep,
    Templates,
};
use mcmod::config::{McmodConfig, Versions};
use mcmod::error::McmodError;
use mcmod::init::{default_package, plan_init, InitAnswers};
use mcmod::gradle::{add_include_to_settings, add_platform_to_gradle_properties, set_gradle_property};
use mcmod::template::{build_vars_with_year, render};

pub fn templates() -> Templates {
    Templates {
        build_gradle_root: "root build".to_string(),
        settings_gradle: "rootProject.name = \"{{mod_id}}\"\n".to_string(),
        gradle_properties: "enabled_platforms={{enabled_platforms}}\n".to_string(),
        gitignore: "build/\n".to_string(),
        license: "Copyright {{year}} {{author}}".to_string(),
        gradle_wrapper_properties: "wrapper".to_string(),
        common_build_gradle: "common build".to_string(),
        common_mod_java: "class {{class_name}}".to_string(),
        common_mod_kt: "object {{class_name}}".to_string(),
        fabric_build_gradle: "fabric build {{mod_id}}".to_string(),
        fabric_gradle_properties: "fabric props".to_string(),
        fabric_mod_java: "class {{class_name}}Fabric".to_string(),
        fabric_mod_kt: "object {{class_name}}Fabric".to_string(),
        fabric_mod_json: "{\"id\": \"{{mod_id}}\"}".to_string(),
        fabric_mixins_json: "mixins {{package}}".to_string(),
        fabric_mixin_package_info: "package {{package}}.mixin;".to_string(),
        neoforge_build_gradle: "neoforge build".to_string(),
        neoforge_gradle_properties: "neoforge props".to_string(),
        neoforge_mod_java: "class {{class_name}}NeoForge".to_string(),
        neoforge_mod_kt: "object {{class_name}}NeoForge".to_string(),
        neoforge_mods_toml: "modId=\"{{mod_id}}\"".to_string(),
        ci_build_yml: "name: {{mod_name}} {{year}}".to_string(),
    }
}

fn config(fabric: bool, neoforge: bool, ci: bool, language: &str) -> McmodConfig {
    McmodConfig::new(
        "mymod".to_string(),
        "My Mod".to_string(),
        "com.example.mymod".to_string(),
        "Me".to_string(),
        "Desc".to_string(),
        language.to_string(),
        fabric,
        neoforge,
        ci,
        Versions::default(),
    )
}

fn write(path: &str, content: &str) -> FileStep {
    FileStep::Write { path: path.to_string(), content: content.to_string() }
}

/// Performs the steps on an in-memory project.
fn apply(files: &mut HashMap<String, String>, steps: &[FileStep]) {
    for step in steps {
        match step {
            FileStep::Write { path, content } => {
                files.insert(path.clone(), content.clone());
            }
            FileStep::WriteIfAbsent { path, content } => {
                files.entry(path.clone()).or_insert_with(|| content.clone());
            }
            FileStep::RemoveSource { path, .. } => {
                files.remove(path);
            }
            FileStep::AddInclude { module } => {
                let s = files.get("settings.gradle").cloned().unwrap_or_default();
                files.insert("settings.gradle".to_string(), add_include_to_settings(&s, module));
            }
            FileStep::AddPlatform { platform } => {
                let s = files.get("gradle.properties").cloned().unwrap_or_default();
                files.insert("gradle.properties".to_string(), add_platform_to_gradle_properties(&s, platform));
            }
            FileStep::SetProperty { key, value } => {
                let s = files.get("gradle.properties").cloned().unwrap_or_default();
                files.insert("gradle.properties".to_string(), set_gradle_property(&s, key, value));
            }
        }
    }
}

#[test]
fn fabric_files_for_java() {
    let vars = build_vars_with_year(
        "mymod", "My Mod", "com.example.mymod", "MymodMod", "Me", "Desc", "java", "1.21.4",
        "0.16.9", "0.111.0+1.21.4", "21.4.156", "", "2025",
    );
    let steps = add_fabric_files(&vars, "java", &templates());
    assert_eq!(
        steps,
        vec![
            write("fabric/build.gradle", "fabric build {{mod_id}}"),
            write("fabric/gradle.properties", "fabric props"),
            write("fabric/src/main/java/com/example/mymod/fabric/MymodModFabric.java", "class MymodModFabric"),
            write("fabric/src/main/resources/fabric.mod.json", "{\"id\": \"mymod\"}"),
            write("fabric/src/main/resources/mymod.mixins.json", "mixins com.example.mymod"),
            write("fabric/src/main/java/com/example/mymod/mixin/package-info.java", "package com.example.mymod.mixin;"),
        ]
    );
    let ci = add_ci_files(&vars, &templates());
    assert_eq!(ci, vec![write(".github/workflows/build.yml", "name: My Mod 2025")]);
    assert_eq!(render("{{class_name}}", &vars), "MymodMod");
}

#[test]
fn add_neoforge_plan() {
    let plan = plan_feature("neoforge", config(true, false, false, "kotlin"), &templates(), "2025").unwrap();
    assert!(plan.config.loaders.neoforge && plan.config.loaders.fabric);
    assert_eq!(plan.steps.len(), 6);
    assert_eq!(
        plan.steps[2],
        write("neoforge/src/main/kotlin/com/example/mymod/neoforge/MymodModNeoForge.kt", "object MymodModNeoForge")
    );
    assert_eq!(plan.steps[4], FileStep::AddInclude { module: "neoforge".to_string() });
    assert_eq!(plan.steps[5], FileStep::AddPlatform { platform: "neoforge".to_string() });
}

#[test]
fn add_twice_is_refused() {
    let t = templates();
    let first = plan_feature("ci", config(true, false, false, "java"), &t, "2025").unwrap();
    assert!(first.config.features.ci);
    let second = plan_feature("ci", first.config, &t, "2025");
    assert!(matches!(second, Err(McmodError::AlreadyEnabled(ref f)) if f == "ci"));
    for f in ["fabric", "neoforge", "kotlin"] {
        let done = run(f, config(false, false, false, "java"), &t).unwrap();
        assert!(matches!(run(f, done.config, &t), Err(McmodError::AlreadyEnabled(ref g)) if g == f));
    }
}

#[test]
fn unknown_feature_is_refused() {
    let r = run("forge", config(true, false, false, "java"), &templates());
    assert_eq!(
        r.err(),
        Some(McmodError::Other("Unknown feature: forge. Valid features: fabric, neoforge, ci, kotlin".to_string()))
    );
}

#[test]
fn kotlin_migration_scenario() {
    let t = templates();
    let cfg = config(true, false, false, "java");
    let mut files: HashMap<String, String> = HashMap::new();
    files.insert("common/src/main/java/com/example/mymod/MymodMod.java".to_string(), "j".to_string());
    files.insert("fabric/src/main/java/com/example/mymod/fabric/MymodModFabric.java".to_string(), "j".to_string());
    files.insert("gradle.properties".to_string(), "enabled_platforms=fabric\n".to_string());
    let plan = plan_feature("kotlin", cfg, &t, "2025").unwrap();
    assert_eq!(
        plan.steps[0],
        FileStep::RemoveSource {
            path: "common/src/main/java/com/example/mymod/MymodMod.java".to_string(),
            dir: "common/src/main/java/com/example/mymod".to_string(),
        }
    );
    assert_eq!(plan.steps.len(), 7);
    apply(&mut files, &plan.steps);
    assert!(!files.contains_key("common/src/main/java/com/example/mymod/MymodMod.java"));
    assert_eq!(files["common/src/main/kotlin/com/example/mymod/MymodMod.kt"], "object MymodMod");
    assert!(!files.contains_key("fabric/src/main/java/com/example/mymod/fabric/MymodModFabric.java"));
    assert_eq!(
        files["fabric/src/main/kotlin/com/example/mymod/fabric/MymodModFabric.kt"],
        "object MymodModFabric"
    );
    assert!(files.contains_key("fabric/src/main/java/com/example/mymod/mixin/package-info.java"));
    assert_eq!(
        files["gradle.properties"],
        "enabled_platforms=fabric\nmod_language=kotlin\nkotlin_version=2.1.0\n"
    );
    assert_eq!(plan.config.mod_info.language, "kotlin");
    assert!(plan.config.loaders.fabric);
    assert!(!plan.config.loaders.neoforge);
}

#[test]
fn add_fabric_registers_module() {
    let mut files: HashMap<String, String> = HashMap::new();
    files.insert("settings.gradle".to_string(), "include(\"common\")\nrootProject.name = \"m\"\n".to_string());
    files.insert("gradle.properties".to_string(), "enabled_platforms=neoforge\n".to_string());
    let plan = plan_feature("fabric", config(false, true, false, "java"), &templates(), "2025").unwrap();
    apply(&mut files, &plan.steps);
    assert_eq!(files["settings.gradle"], "include(\"common\")\ninclude(\"fabric\")\nrootProject.name = \"m\"\n");
    assert_eq!(files["gradle.properties"], "enabled_platforms=neoforge,fabric\n");
    assert!(files.contains_key("fabric/src/main/java/com/example/mymod/fabric/MymodModFabric.java"));
}

#[test]
fn cleanup_stays_inside_project() {
    assert_eq!(
        cleanup_empty_dirs("common/src/main/java/com", true, true),
        CleanupAction::Remove { next: "common/src/main/java".to_string() }
    );
    assert_eq!(cleanup_empty_dirs("common", true, true), CleanupAction::Remove { next: "".to_string() });
    assert_eq!(cleanup_empty_dirs("", true, true), CleanupAction::Stop);
    assert_eq!(cleanup_empty_dirs(".", true, true), CleanupAction::Stop);
    assert_eq!(cleanup_empty_dirs("a/../..", true, true), CleanupAction::Stop);
    assert_eq!(cleanup_empty_dirs("/tmp/x", true, true), CleanupAction::Stop);
    assert_eq!(cleanup_empty_dirs("common/src", true, false), CleanupAction::Stop);
    assert_eq!(cleanup_empty_dirs("common/src", false, true), CleanupAction::Stop);
}

fn answers(loaders: &[&str], language: &str, ci: bool) -> InitAnswers {
    InitAnswers {
        mod_id: "cool_mod".to_string(),
        mod_name: "Cool Mod".to_string(),
        package: "com.example.cool_mod".to_string(),
        author: "Me".to_string(),
        description: "Desc".to_string(),
        language: language.to_string(),
        loaders: loaders.iter().map(|l| l.to_string()).collect(),
        ci,
    }
}

#[test]
fn init_project_files() {
    let (steps, cfg) = plan_init(answers(&["fabric", "neoforge"], "kotlin", true), Versions::default(), &templates(), "2025").unwrap();
    let mut files: HashMap<String, String> = HashMap::new();
    apply(&mut files, &steps);
    assert_eq!(
        files["settings.gradle"],
        "include(\"fabric\")\ninclude(\"neoforge\")\nrootProject.name = \"cool_mod\"\n"
    );
    assert_eq!(
        files["gradle.properties"],
        "enabled_platforms=fabric,neoforge\n\nmod_language=kotlin\nkotlin_version=2.1.0\n"
    );
    assert_eq!(files["LICENSE"], "Copyright 2025 Me");
    assert_eq!(files["common/src/main/kotlin/com/example/cool_mod/CoolModMod.kt"], "object CoolModMod");
    assert!(files.contains_key("common/src/main/resources/assets/cool_mod/icon.png.txt"));
    assert!(files.contains_key("fabric/src/main/kotlin/com/example/cool_mod/fabric/CoolModModFabric.kt"));
    assert!(files.contains_key("neoforge/src/main/kotlin/com/example/cool_mod/neoforge/CoolModModNeoForge.kt"));
    assert_eq!(files[".github/workflows/build.yml"], "name: Cool Mod 2025");
    assert!(cfg.loaders.fabric && cfg.loaders.neoforge && cfg.features.ci);
    assert_eq!(cfg.mod_info.language, "kotlin");
}

#[test]
fn init_refusals() {
    let t = templates();
    let mut bad_id = answers(&["fabric"], "java", false);
    bad_id.mod_id = "Cool".to_string();
    assert_eq!(plan_init(bad_id, Versions::default(), &t, "2025").err(), Some(McmodError::InvalidModId("Cool".to_string())));
    let mut bad_pkg = answers(&["fabric"], "java", false);
    bad_pkg.package = "com..x".to_string();
    assert_eq!(plan_init(bad_pkg, Versions::default(), &t, "2025").err(), Some(McmodError::InvalidPackage("com..x".to_string())));
    assert_eq!(
        plan_init(answers(&[], "java", false), Versions::default(), &t, "2025").err(),
        Some(McmodError::Other("At least one loader must be selected".to_string()))
    );
    let (steps, cfg) = plan_init(answers(&["neoforge"], "java", false), Versions::default(), &t, "2025").unwrap();
    assert!(!cfg.loaders.fabric && cfg.loaders.neoforge && !cfg.features.ci);
    assert!(steps.iter().all(|s| !matches!(s, FileStep::AddInclude { module } if module == "fabric")));
    assert_eq!(default_package("cool_mod"), "com.example.cool_mod");
}

#[test]
fn guard_before_any_step() {
    assert_eq!(check_addable("fabric", &config(false, false, false, "java")), Ok(()));
    assert_eq!(
        check_addable("fabric", &config(true, false, false, "java")),
        Err(McmodError::AlreadyEnabled("fabric".to_string()))
    );
    assert_eq!(
        check_addable("kotlin", &config(true, false, false, "kotlin")),
        Err(McmodError::AlreadyEnabled("kotlin".to_string()))
    );
    assert!(matches!(check_addable("x", &config(true, true, true, "java")), Err(McmodError::Other(_))));
}
