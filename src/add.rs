//! Adding a feature to an existing project.
//!
//! Each addition is planned here as an ordered list of file steps and the
//! descriptor that results; the caller performs the steps in order and saves
//! the new descriptor only after every step succeeded. A feature that is
//! already enabled is refused before any step is planned.
use vstd::prelude::*;
use crate::config::{platform_names, DescriptorView, McmodConfig};
use crate::error::McmodError;
use crate::template::{lookup, render, rendered, standard_vars, year_of, TemplateVars};
use crate::text::{append_str, chars_of, join_with, same_text, split_on, string_of};
use crate::util::{class_name, derive_class_name, package_path, package_to_path};

verus! {

/// The template texts that project creation and feature additions render.
pub struct Templates {
    pub build_gradle_root: String,
    pub settings_gradle: String,
    pub gradle_properties: String,
    pub gitignore: String,
    pub license: String,
    pub gradle_wrapper_properties: String,
    pub common_build_gradle: String,
    pub common_mod_java: String,
    pub common_mod_kt: String,
    pub fabric_build_gradle: String,
    pub fabric_gradle_properties: String,
    pub fabric_mod_java: String,
    pub fabric_mod_kt: String,
    pub fabric_mod_json: String,
    pub fabric_mixins_json: String,
    pub fabric_mixin_package_info: String,
    pub neoforge_build_gradle: String,
    pub neoforge_gradle_properties: String,
    pub neoforge_mod_java: String,
    pub neoforge_mod_kt: String,
    pub neoforge_mods_toml: String,
    pub ci_build_yml: String,
}

/// One on-disk step of a feature addition. Paths are relative to the project
/// directory.
#[derive(Debug, PartialEq, Eq)]
pub enum FileStep {
    /// Write `content` to `path`, creating directories and replacing a file.
    Write { path: String, content: String },
    /// Write `content` to `path` unless a file is there already.
    WriteIfAbsent { path: String, content: String },
    /// Remove the file at `path` if there is one, then remove `dir` and its
    /// parents while they are empty (see `cleanup_empty_dirs`).
    RemoveSource { path: String, dir: String },
    /// Register `module` in `settings.gradle`.
    AddInclude { module: String },
    /// Add `platform` to the enabled platforms in `gradle.properties`.
    AddPlatform { platform: String },
    /// Set `key` to `value` in `gradle.properties`.
    SetProperty { key: String, value: String },
}

/// A file step as plain values.
pub enum StepView {
    Write(Seq<char>, Seq<char>),
    WriteIfAbsent(Seq<char>, Seq<char>),
    RemoveSource(Seq<char>, Seq<char>),
    AddInclude(Seq<char>),
    AddPlatform(Seq<char>),
    SetProperty(Seq<char>, Seq<char>),
}

impl View for FileStep {
    type V = StepView;

    open spec fn view(&self) -> StepView {
        match self {
            FileStep::Write { path, content } => StepView::Write(path@, content@),
            FileStep::WriteIfAbsent { path, content } => StepView::WriteIfAbsent(path@, content@),
            FileStep::RemoveSource { path, dir } => StepView::RemoveSource(path@, dir@),
            FileStep::AddInclude { module } => StepView::AddInclude(module@),
            FileStep::AddPlatform { platform } => StepView::AddPlatform(platform@),
            FileStep::SetProperty { key, value } => StepView::SetProperty(key@, value@),
        }
    }
}

pub open spec fn step_views(steps: Seq<FileStep>) -> Seq<StepView> {
    steps.map_values(|s: FileStep| s@)
}

/// The steps of a feature addition and the descriptor to save after them.
pub struct AddPlan {
    pub steps: Vec<FileStep>,
    pub config: McmodConfig,
}

pub open spec fn is_kotlin(language: Seq<char>) -> bool {
    language == "kotlin"@
}

/// The source directory name and file extension for a language.
pub open spec fn source_dir(language: Seq<char>) -> Seq<char> {
    if is_kotlin(language) { "kotlin"@ } else { "java"@ }
}

pub open spec fn source_ext(language: Seq<char>) -> Seq<char> {
    if is_kotlin(language) { "kt"@ } else { "java"@ }
}

/// The template variables that file steps read, all present.
pub open spec fn has_file_vars(vars: Seq<(Seq<char>, Seq<char>)>) -> bool {
    &&& lookup(vars, "package_path"@) is Some
    &&& lookup(vars, "class_name"@) is Some
    &&& lookup(vars, "mod_id"@) is Some
}

pub open spec fn var(vars: Seq<(Seq<char>, Seq<char>)>, k: Seq<char>) -> Seq<char> {
    lookup(vars, k).unwrap()
}

/// The files of the fabric module.
pub open spec fn fabric_files(vars: Seq<(Seq<char>, Seq<char>)>, language: Seq<char>, t: Templates) -> Seq<StepView> {
    let pp = var(vars, "package_path"@);
    let cn = var(vars, "class_name"@);
    let id = var(vars, "mod_id"@);
    let src = if is_kotlin(language) { t.fabric_mod_kt@ } else { t.fabric_mod_java@ };
    seq![
        StepView::Write("fabric/build.gradle"@, t.fabric_build_gradle@),
        StepView::Write("fabric/gradle.properties"@, t.fabric_gradle_properties@),
        StepView::Write(
            "fabric/src/main/"@ + source_dir(language) + "/"@ + pp + "/fabric/"@ + cn + "Fabric."@
                + source_ext(language),
            rendered(src, vars),
        ),
        StepView::Write("fabric/src/main/resources/fabric.mod.json"@, rendered(t.fabric_mod_json@, vars)),
        StepView::Write("fabric/src/main/resources/"@ + id + ".mixins.json"@, rendered(t.fabric_mixins_json@, vars)),
        StepView::Write(
            "fabric/src/main/java/"@ + pp + "/mixin/package-info.java"@,
            rendered(t.fabric_mixin_package_info@, vars),
        ),
    ]
}

/// The files of the neoforge module.
pub open spec fn neoforge_files(vars: Seq<(Seq<char>, Seq<char>)>, language: Seq<char>, t: Templates) -> Seq<StepView> {
    let pp = var(vars, "package_path"@);
    let cn = var(vars, "class_name"@);
    let src = if is_kotlin(language) { t.neoforge_mod_kt@ } else { t.neoforge_mod_java@ };
    seq![
        StepView::Write("neoforge/build.gradle"@, t.neoforge_build_gradle@),
        StepView::Write("neoforge/gradle.properties"@, t.neoforge_gradle_properties@),
        StepView::Write(
            "neoforge/src/main/"@ + source_dir(language) + "/"@ + pp + "/neoforge/"@ + cn
                + "NeoForge."@ + source_ext(language),
            rendered(src, vars),
        ),
        StepView::Write(
            "neoforge/src/main/resources/META-INF/neoforge.mods.toml"@,
            rendered(t.neoforge_mods_toml@, vars),
        ),
    ]
}

/// The files of the CI workflow.
pub open spec fn ci_files(vars: Seq<(Seq<char>, Seq<char>)>, t: Templates) -> Seq<StepView> {
    seq![StepView::Write(".github/workflows/build.yml"@, rendered(t.ci_build_yml@, vars))]
}

/// The steps that move one module's main source from Java to Kotlin.
pub open spec fn migration_steps(
    module: Seq<char>,
    source_package_path: Seq<char>,
    source_class_name: Seq<char>,
    kt_template: Seq<char>,
    vars: Seq<(Seq<char>, Seq<char>)>,
    mixin_package_path: Option<Seq<char>>,
    mixin_template: Seq<char>,
) -> Seq<StepView> {
    let java_dir = module + "/src/main/java/"@ + source_package_path;
    let steps = seq![
        StepView::RemoveSource(java_dir + "/"@ + source_class_name + ".java"@, java_dir),
        StepView::Write(
            module + "/src/main/kotlin/"@ + source_package_path + "/"@ + source_class_name + ".kt"@,
            rendered(kt_template, vars),
        ),
    ];
    match mixin_package_path {
        Some(pp) => steps.push(
            StepView::WriteIfAbsent(
                module + "/src/main/java/"@ + pp + "/mixin/package-info.java"@,
                rendered(mixin_template, vars),
            ),
        ),
        None => steps,
    }
}

/// The steps that move a project from Java to Kotlin: the shared module, then
/// each enabled loader module, then the language properties.
pub open spec fn kotlin_steps(d: DescriptorView, vars: Seq<(Seq<char>, Seq<char>)>, t: Templates) -> Seq<StepView> {
    let pp = package_path(d.package);
    let cn = class_name(d.mod_id);
    let common = migration_steps("common"@, pp, cn, t.common_mod_kt@, vars, None, t.fabric_mixin_package_info@);
    let fabric = if d.fabric {
        migration_steps("fabric"@, pp + "/fabric"@, cn + "Fabric"@, t.fabric_mod_kt@, vars, Some(pp), t.fabric_mixin_package_info@)
    } else {
        Seq::<StepView>::empty()
    };
    let neoforge = if d.neoforge {
        migration_steps("neoforge"@, pp + "/neoforge"@, cn + "NeoForge"@, t.neoforge_mod_kt@, vars, None, t.fabric_mixin_package_info@)
    } else {
        Seq::<StepView>::empty()
    };
    common + fabric + neoforge + seq![
        StepView::SetProperty("mod_language"@, "kotlin"@),
        StepView::SetProperty("kotlin_version"@, "2.1.0"@),
    ]
}

/// The features that can be added.
pub open spec fn known_feature(f: Seq<char>) -> bool {
    f == "fabric"@ || f == "neoforge"@ || f == "ci"@ || f == "kotlin"@
}

/// Whether the descriptor records feature `f` as enabled.
pub open spec fn feature_on(d: DescriptorView, f: Seq<char>) -> bool {
    if f == "fabric"@ {
        d.fabric
    } else if f == "neoforge"@ {
        d.neoforge
    } else if f == "ci"@ {
        d.ci
    } else if f == "kotlin"@ {
        is_kotlin(d.language)
    } else {
        false
    }
}

/// The descriptor `d` with feature `f` enabled and nothing else changed.
pub open spec fn enable(d: DescriptorView, f: Seq<char>) -> DescriptorView {
    if f == "fabric"@ {
        DescriptorView { fabric: true, ..d }
    } else if f == "neoforge"@ {
        DescriptorView { neoforge: true, ..d }
    } else if f == "ci"@ {
        DescriptorView { ci: true, ..d }
    } else if f == "kotlin"@ {
        DescriptorView { language: "kotlin"@, ..d }
    } else {
        d
    }
}

/// The steps that add feature `f` to the project `d`.
pub open spec fn feature_steps(f: Seq<char>, d: DescriptorView, vars: Seq<(Seq<char>, Seq<char>)>, t: Templates) -> Seq<StepView> {
    if f == "fabric"@ {
        fabric_files(vars, d.language, t) + seq![StepView::AddInclude("fabric"@), StepView::AddPlatform("fabric"@)]
    } else if f == "neoforge"@ {
        neoforge_files(vars, d.language, t) + seq![StepView::AddInclude("neoforge"@), StepView::AddPlatform("neoforge"@)]
    } else if f == "ci"@ {
        ci_files(vars, t)
    } else {
        kotlin_steps(d, vars, t)
    }
}

/// The template variables of a descriptor, for a given copyright year.
pub open spec fn descriptor_vars(d: DescriptorView, year: Seq<char>) -> Seq<(Seq<char>, Seq<char>)> {
    standard_vars(d.mod_id, d.mod_name, d.package, class_name(d.mod_id), d.author, d.description,
        d.language, d.minecraft, d.fabric_loader, d.fabric_api, d.neoforge_version,
        join_with(platform_names(d.fabric, d.neoforge), ','), year)
}

/// The value of a variable that has a value.
fn var_of<'a>(vars: &'a TemplateVars, key: &str) -> (r: &'a String)
    requires
        lookup(vars@, key@) is Some,
    ensures
        r@ == var(vars@, key@),
{
    match vars.get(key) {
        Some(v) => v,
        None => {
            assert(false);
            vars.get(key).unwrap()
        }
    }
}

fn write_step(path: Vec<char>, content: String) -> (r: FileStep)
    ensures
        r@ == StepView::Write(path@, content@),
{
    FileStep::Write { path: string_of(path.as_slice()), content }
}

pub(crate) fn push_step(steps: &mut Vec<FileStep>, step: FileStep)
    ensures
        step_views(final(steps)@) == step_views(old(steps)@).push(step@),
{
    let ghost before = steps@;
    steps.push(step);
    assert(step_views(steps@) =~= step_views(before).push(step@));
}

/// Creates the files of the fabric module.
pub fn add_fabric_files(vars: &TemplateVars, language: &str, templates: &Templates) -> (r: Vec<FileStep>)
    requires
        has_file_vars(vars@),
    ensures
        step_views(r@) == fabric_files(vars@, language@, *templates),
{
    let pp = var_of(vars, "package_path");
    let cn = var_of(vars, "class_name");
    let id = var_of(vars, "mod_id");
    let kotlin = same_text(language, "kotlin");
    let mut steps: Vec<FileStep> = Vec::new();
    push_step(&mut steps, write_step(chars_of("fabric/build.gradle"), templates.fabric_build_gradle.clone()));
    push_step(&mut steps, write_step(chars_of("fabric/gradle.properties"), templates.fabric_gradle_properties.clone()));
    let mut path: Vec<char> = chars_of("fabric/src/main/");
    append_str(&mut path, if kotlin { "kotlin" } else { "java" });
    append_str(&mut path, "/");
    append_str(&mut path, pp.as_str());
    append_str(&mut path, "/fabric/");
    append_str(&mut path, cn.as_str());
    append_str(&mut path, "Fabric.");
    append_str(&mut path, if kotlin { "kt" } else { "java" });
    let src = if kotlin { templates.fabric_mod_kt.as_str() } else { templates.fabric_mod_java.as_str() };
    push_step(&mut steps, write_step(path, render(src, vars)));
    push_step(&mut steps, write_step(chars_of("fabric/src/main/resources/fabric.mod.json"), render(templates.fabric_mod_json.as_str(), vars)));
    let mut path: Vec<char> = chars_of("fabric/src/main/resources/");
    append_str(&mut path, id.as_str());
    append_str(&mut path, ".mixins.json");
    push_step(&mut steps, write_step(path, render(templates.fabric_mixins_json.as_str(), vars)));
    let mut path: Vec<char> = chars_of("fabric/src/main/java/");
    append_str(&mut path, pp.as_str());
    append_str(&mut path, "/mixin/package-info.java");
    push_step(&mut steps, write_step(path, render(templates.fabric_mixin_package_info.as_str(), vars)));
    assert(step_views(steps@) =~= fabric_files(vars@, language@, *templates));
    steps
}

/// Creates the files of the neoforge module.
pub fn add_neoforge_files(vars: &TemplateVars, language: &str, templates: &Templates) -> (r: Vec<FileStep>)
    requires
        has_file_vars(vars@),
    ensures
        step_views(r@) == neoforge_files(vars@, language@, *templates),
{
    let pp = var_of(vars, "package_path");
    let cn = var_of(vars, "class_name");
    let kotlin = same_text(language, "kotlin");
    let mut steps: Vec<FileStep> = Vec::new();
    push_step(&mut steps, write_step(chars_of("neoforge/build.gradle"), templates.neoforge_build_gradle.clone()));
    push_step(&mut steps, write_step(chars_of("neoforge/gradle.properties"), templates.neoforge_gradle_properties.clone()));
    let mut path: Vec<char> = chars_of("neoforge/src/main/");
    append_str(&mut path, if kotlin { "kotlin" } else { "java" });
    append_str(&mut path, "/");
    append_str(&mut path, pp.as_str());
    append_str(&mut path, "/neoforge/");
    append_str(&mut path, cn.as_str());
    append_str(&mut path, "NeoForge.");
    append_str(&mut path, if kotlin { "kt" } else { "java" });
    let src = if kotlin { templates.neoforge_mod_kt.as_str() } else { templates.neoforge_mod_java.as_str() };
    push_step(&mut steps, write_step(path, render(src, vars)));
    push_step(&mut steps, write_step(chars_of("neoforge/src/main/resources/META-INF/neoforge.mods.toml"), render(templates.neoforge_mods_toml.as_str(), vars)));
    assert(step_views(steps@) =~= neoforge_files(vars@, language@, *templates));
    steps
}

/// Creates the CI workflow file.
pub fn add_ci_files(vars: &TemplateVars, templates: &Templates) -> (r: Vec<FileStep>)
    ensures
        step_views(r@) == ci_files(vars@, *templates),
{
    let mut steps: Vec<FileStep> = Vec::new();
    push_step(&mut steps, write_step(chars_of(".github/workflows/build.yml"), render(templates.ci_build_yml.as_str(), vars)));
    assert(step_views(steps@) =~= ci_files(vars@, *templates));
    steps
}

/// Plans the move of one module's main source from Java to Kotlin: the Java
/// file goes (with the directories it leaves empty), the Kotlin file is
/// written, and for a module with mixins the Java package marker is kept.
pub fn migrate_to_kotlin(
    module: &str,
    source_package_path: &str,
    source_class_name: &str,
    kt_template: &str,
    vars: &TemplateVars,
    mixin_package_path: Option<&str>,
    mixin_template: &str,
) -> (r: Vec<FileStep>)
    ensures
        step_views(r@) == migration_steps(module@, source_package_path@, source_class_name@,
            kt_template@, vars@, match mixin_package_path { Some(p) => Some(p@), None => None },
            mixin_template@),
{
    let mut dir: Vec<char> = chars_of(module);
    append_str(&mut dir, "/src/main/java/");
    append_str(&mut dir, source_package_path);
    let mut java: Vec<char> = dir.clone();
    append_str(&mut java, "/");
    append_str(&mut java, source_class_name);
    append_str(&mut java, ".java");
    let mut steps: Vec<FileStep> = Vec::new();
    push_step(&mut steps, FileStep::RemoveSource {
        path: string_of(java.as_slice()),
        dir: string_of(dir.as_slice()),
    });
    let mut kt: Vec<char> = chars_of(module);
    append_str(&mut kt, "/src/main/kotlin/");
    append_str(&mut kt, source_package_path);
    append_str(&mut kt, "/");
    append_str(&mut kt, source_class_name);
    append_str(&mut kt, ".kt");
    push_step(&mut steps, write_step(kt, render(kt_template, vars)));
    match mixin_package_path {
        Some(pp) => {
            let mut marker: Vec<char> = chars_of(module);
            append_str(&mut marker, "/src/main/java/");
            append_str(&mut marker, pp);
            append_str(&mut marker, "/mixin/package-info.java");
            push_step(&mut steps, FileStep::WriteIfAbsent {
                path: string_of(marker.as_slice()),
                content: render(mixin_template, vars),
            });
        },
        None => {},
    }
    assert(step_views(steps@) =~= migration_steps(module@, source_package_path@,
        source_class_name@, kt_template@, vars@,
        match mixin_package_path { Some(p) => Some(p@), None => None }, mixin_template@));
    steps
}

pub(crate) fn append_steps(steps: &mut Vec<FileStep>, more: Vec<FileStep>)
    ensures
        step_views(final(steps)@) == step_views(old(steps)@) + step_views(more@),
{
    let ghost start = steps@;
    let ghost all = more@;
    let mut more = more;
    while more.len() > 0
        invariant
            step_views(steps@) + step_views(more@) == step_views(start) + step_views(all),
        decreases more@.len(),
    {
        let ghost m = more@;
        let ghost before = steps@;
        let x = more.remove(0);
        steps.push(x);
        assert(step_views(m) =~= seq![x@] + step_views(more@));
        assert(step_views(steps@) =~= step_views(before).push(x@));
        assert(step_views(steps@) + step_views(more@) =~= step_views(before) + step_views(m));
    }
    assert(step_views(more@) =~= Seq::<StepView>::empty());
    assert(step_views(steps@) =~= step_views(steps@) + step_views(more@));
}

proof fn lemma_descriptor_vars_lookup(d: DescriptorView, year: Seq<char>)
    ensures
        has_file_vars(descriptor_vars(d, year)),
        var(descriptor_vars(d, year), "package_path"@) == package_path(d.package),
        var(descriptor_vars(d, year), "class_name"@) == class_name(d.mod_id),
        var(descriptor_vars(d, year), "mod_id"@) == d.mod_id,
{
    crate::template::lemma_standard_lookup(d.mod_id, d.mod_name, d.package, class_name(d.mod_id),
        d.author, d.description, d.language, d.minecraft, d.fabric_loader, d.fabric_api,
        d.neoforge_version, join_with(platform_names(d.fabric, d.neoforge), ','), year);
}

/// The template variables of a descriptor, with the copyright year given.
pub fn build_vars_from_config(config: &McmodConfig, year: &str) -> (r: TemplateVars)
    ensures
        r@ == descriptor_vars(config@, year@),
{
    let class_name = derive_class_name(config.mod_info.mod_id.as_str());
    let names = config.enabled_platforms();
    let mut pieces: Vec<Vec<char>> = Vec::new();
    let mut i: usize = 0;
    while i < names.len()
        invariant
            i <= names@.len(),
            crate::text::views(pieces@) == names@.map_values(|p: &str| p@).take(i as int),
        decreases names@.len() - i,
    {
        let ghost before = crate::text::views(pieces@);
        let piece = chars_of(names[i]);
        pieces.push(piece);
        assert(names@.map_values(|p: &str| p@)[i as int] == names@[i as int]@);
        assert(crate::text::views(pieces@) =~= before.push(piece@));
        assert(crate::text::views(pieces@) =~= names@.map_values(|p: &str| p@).take(i + 1));
        i = i + 1;
    }
    assert(names@.map_values(|p: &str| p@).take(i as int) =~= names@.map_values(|p: &str| p@));
    let joined = crate::text::join_chars(&pieces, ',');
    let platforms = string_of(joined.as_slice());
    crate::template::build_vars_with_year(
        config.mod_info.mod_id.as_str(),
        config.mod_info.mod_name.as_str(),
        config.mod_info.package.as_str(),
        class_name.as_str(),
        config.mod_info.author.as_str(),
        config.mod_info.description.as_str(),
        config.mod_info.language.as_str(),
        config.versions.minecraft.as_str(),
        config.versions.fabric_loader.as_str(),
        config.versions.fabric_api.as_str(),
        config.versions.neoforge.as_str(),
        platforms.as_str(),
        year,
    )
}

/// The message for a feature name that is not known.
pub open spec fn unknown_feature_message(f: Seq<char>) -> Seq<char> {
    "Unknown feature: "@ + f + ". Valid features: fabric, neoforge, ci, kotlin"@
}

/// Accepts the name of a feature that can be added.
pub fn check_feature(feature: &str) -> (r: Result<(), McmodError>)
    ensures
        r is Ok <==> known_feature(feature@),
        r matches Err(e) ==> (e matches McmodError::Other(m) && m@ == unknown_feature_message(feature@)),
{
    if same_text(feature, "fabric") || same_text(feature, "neoforge") || same_text(feature, "ci")
        || same_text(feature, "kotlin") {
        Ok(())
    } else {
        let mut m = chars_of("Unknown feature: ");
        append_str(&mut m, feature);
        append_str(&mut m, ". Valid features: fabric, neoforge, ci, kotlin");
        Err(McmodError::Other(string_of(m.as_slice())))
    }
}

/// Accepts adding `feature` to the project that `config` describes: the name
/// must be known and the feature not yet enabled.
pub fn check_addable(feature: &str, config: &McmodConfig) -> (r: Result<(), McmodError>)
    ensures
        !known_feature(feature@) ==> (r matches Err(McmodError::Other(m)) && m@
            == unknown_feature_message(feature@)),
        known_feature(feature@) && feature_on(config@, feature@) ==> (r matches Err(
            McmodError::AlreadyEnabled(f),
        ) && f@ == feature@),
        known_feature(feature@) && !feature_on(config@, feature@) ==> r is Ok,
{
    match check_feature(feature) {
        Ok(()) => {},
        Err(e) => {
            return Err(e);
        },
    }
    let already = if same_text(feature, "fabric") {
        config.loaders.fabric
    } else if same_text(feature, "neoforge") {
        config.loaders.neoforge
    } else if same_text(feature, "ci") {
        config.features.ci
    } else {
        same_text(config.mod_info.language.as_str(), "kotlin")
    };
    if already {
        Err(McmodError::AlreadyEnabled(feature.to_owned()))
    } else {
        Ok(())
    }
}

fn kotlin_plan(config: &McmodConfig, vars: &TemplateVars, templates: &Templates) -> (r: Vec<FileStep>)
    ensures
        step_views(r@) == kotlin_steps(config@, vars@, *templates),
{
    let pp = package_to_path(config.mod_info.package.as_str());
    let cn = derive_class_name(config.mod_info.mod_id.as_str());
    let mut steps = migrate_to_kotlin("common", pp.as_str(), cn.as_str(),
        templates.common_mod_kt.as_str(), vars, None, templates.fabric_mixin_package_info.as_str());
    let ghost common = step_views(steps@);
    if config.loaders.fabric {
        let mut spp = chars_of(pp.as_str());
        append_str(&mut spp, "/fabric");
        let spp = string_of(spp.as_slice());
        let mut scn = chars_of(cn.as_str());
        append_str(&mut scn, "Fabric");
        let scn = string_of(scn.as_slice());
        let more = migrate_to_kotlin("fabric", spp.as_str(), scn.as_str(),
            templates.fabric_mod_kt.as_str(), vars, Some(pp.as_str()),
            templates.fabric_mixin_package_info.as_str());
        append_steps(&mut steps, more);
    }
    let ghost with_fabric = step_views(steps@);
    if config.loaders.neoforge {
        let mut spp = chars_of(pp.as_str());
        append_str(&mut spp, "/neoforge");
        let spp = string_of(spp.as_slice());
        let mut scn = chars_of(cn.as_str());
        append_str(&mut scn, "NeoForge");
        let scn = string_of(scn.as_slice());
        let more = migrate_to_kotlin("neoforge", spp.as_str(), scn.as_str(),
            templates.neoforge_mod_kt.as_str(), vars, None,
            templates.fabric_mixin_package_info.as_str());
        append_steps(&mut steps, more);
    }
    push_step(&mut steps, FileStep::SetProperty { key: "mod_language".to_owned(), value: "kotlin".to_owned() });
    push_step(&mut steps, FileStep::SetProperty { key: "kotlin_version".to_owned(), value: "2.1.0".to_owned() });
    assert(step_views(steps@) =~= kotlin_steps(config@, vars@, *templates));
    steps
}

/// Plans the addition of `feature` to the project that `config` describes,
/// with the copyright year given. A feature that is already enabled is refused
/// with `AlreadyEnabled`, an unknown one with `Other`.
pub fn plan_feature(feature: &str, config: McmodConfig, templates: &Templates, year: &str) -> (r: Result<AddPlan, McmodError>)
    ensures
        !known_feature(feature@) ==> (r matches Err(McmodError::Other(m)) && m@
            == unknown_feature_message(feature@)),
        known_feature(feature@) && feature_on(config@, feature@) ==> (r matches Err(
            McmodError::AlreadyEnabled(f),
        ) && f@ == feature@),
        known_feature(feature@) && !feature_on(config@, feature@) ==> (r matches Ok(plan)
            && plan.config@ == enable(config@, feature@) && step_views(plan.steps@) == feature_steps(
            feature@,
            config@,
            descriptor_vars(config@, year@),
            *templates,
        )),
{
    let mut config = config;
    let ghost d = config@;
    match check_addable(feature, &config) {
        Ok(()) => {},
        Err(e) => {
            return Err(e);
        },
    }
    let is_fabric = same_text(feature, "fabric");
    let is_neoforge = same_text(feature, "neoforge");
    let is_ci = same_text(feature, "ci");
    let vars = build_vars_from_config(&config, year);
    proof {
        lemma_descriptor_vars_lookup(d, year@);
    }
    let mut steps: Vec<FileStep>;
    if is_fabric {
        steps = add_fabric_files(&vars, config.mod_info.language.as_str(), templates);
        push_step(&mut steps, FileStep::AddInclude { module: "fabric".to_owned() });
        push_step(&mut steps, FileStep::AddPlatform { platform: "fabric".to_owned() });
        config.loaders.fabric = true;
    } else if is_neoforge {
        steps = add_neoforge_files(&vars, config.mod_info.language.as_str(), templates);
        push_step(&mut steps, FileStep::AddInclude { module: "neoforge".to_owned() });
        push_step(&mut steps, FileStep::AddPlatform { platform: "neoforge".to_owned() });
        config.loaders.neoforge = true;
    } else if is_ci {
        steps = add_ci_files(&vars, templates);
        config.features.ci = true;
    } else {
        steps = kotlin_plan(&config, &vars, templates);
        config.mod_info.language = "kotlin".to_owned();
    }
    assert(step_views(steps@) =~= feature_steps(feature@, d, descriptor_vars(d, year@), *templates));
    assert(config@ == enable(d, feature@));
    Ok(AddPlan { steps, config })
}

/// Plans the addition of `feature` to the project that `config` describes; the
/// copyright year comes from the system clock.
pub fn run(feature: &str, config: McmodConfig, templates: &Templates) -> (r: Result<AddPlan, McmodError>)
    ensures
        !known_feature(feature@) ==> (r matches Err(McmodError::Other(m)) && m@
            == unknown_feature_message(feature@)),
        known_feature(feature@) && feature_on(config@, feature@) ==> (r matches Err(
            McmodError::AlreadyEnabled(f),
        ) && f@ == feature@),
        known_feature(feature@) && !feature_on(config@, feature@) ==> (r matches Ok(plan)
            && plan.config@ == enable(config@, feature@) && exists|secs: u64| step_views(plan.steps@) == feature_steps(
            feature@,
            config@,
            descriptor_vars(config@, #[trigger] year_of(secs)),
            *templates,
        )),
{
    let year = crate::template::chrono_year();
    plan_feature(feature, config, templates, year.as_str())
}

/// Adding a feature twice: once the first addition's descriptor is saved, the
/// second addition of the same feature is refused (`plan_feature` and `run`
/// answer `AlreadyEnabled` exactly when `feature_on` holds), and enabling
/// changes no other part of the descriptor.
pub proof fn lemma_add_twice_refused(d: DescriptorView, f: Seq<char>)
    requires
        known_feature(f),
        !feature_on(d, f),
    ensures
        feature_on(enable(d, f), f),
        enable(enable(d, f), f) == enable(d, f),
        enable(d, f).mod_id == d.mod_id,
        enable(d, f).package == d.package,
        f != "fabric"@ ==> enable(d, f).fabric == d.fabric,
        f != "neoforge"@ ==> enable(d, f).neoforge == d.neoforge,
        f != "ci"@ ==> enable(d, f).ci == d.ci,
        f != "kotlin"@ ==> enable(d, f).language == d.language,
{
}

/// What to do with the directory that source cleanup has reached.
#[derive(Debug, PartialEq, Eq)]
pub enum CleanupAction {
    /// Remove the directory, then look at `next`, its parent.
    Remove { next: String },
    /// Leave the directory and stop.
    Stop,
}

/// The path components of a relative path.
pub open spec fn components(p: Seq<char>) -> Seq<Seq<char>> {
    split_on(p, '/')
}

/// `p` names a directory strictly inside the project directory: it is
/// relative, has no `..` component, and is not the project directory itself.
pub open spec fn inside_root(p: Seq<char>) -> bool {
    &&& p.len() > 0
    &&& p[0] != '/'
    &&& forall|i: int| 0 <= i < components(p).len() ==> #[trigger] components(p)[i] != ".."@
    &&& exists|i: int| 0 <= i < components(p).len() && #[trigger] components(p)[i] != ""@
        && components(p)[i] != "."@
}

/// The parent of a relative path: everything before its last `/`.
pub open spec fn parent_of(p: Seq<char>) -> Seq<char> {
    join_with(components(p).drop_last(), '/')
}

/// The decision for one directory: remove it only when it exists, is empty,
/// and lies strictly inside the project directory.
pub open spec fn cleanup_removes(current: Seq<char>, present: bool, empty: bool) -> bool {
    present && empty && inside_root(current)
}

/// One step of the upward walk that removes directories left empty by a
/// removed source file. `current` is relative to the project directory;
/// `present` and `empty` describe it on disk.
pub fn cleanup_empty_dirs(current: &str, present: bool, empty: bool) -> (r: CleanupAction)
    ensures
        r is Remove <==> cleanup_removes(current@, present, empty),
        r matches CleanupAction::Remove { next } ==> next@ == parent_of(current@),
{
    if !present || !empty {
        return CleanupAction::Stop;
    }
    let cs = chars_of(current);
    if cs.len() == 0 || cs[0] == '/' {
        return CleanupAction::Stop;
    }
    let parts = crate::text::split_chars(cs.as_slice(), '/');
    let up = chars_of("..");
    let here = chars_of(".");
    let mut named = false;
    let mut i: usize = 0;
    while i < parts.len()
        invariant
            i <= parts@.len(),
            crate::text::views(parts@) == components(current@),
            up@ == ".."@,
            here@ == "."@,
            forall|j: int| 0 <= j < i ==> #[trigger] components(current@)[j] != ".."@,
            named <==> exists|j: int| 0 <= j < i && #[trigger] components(current@)[j] != ""@
                && components(current@)[j] != "."@,
        decreases parts@.len() - i,
    {
        assert(components(current@)[i as int] == parts@[i as int]@);
        if crate::text::same_chars(parts[i].as_slice(), up.as_slice()) {
            return CleanupAction::Stop;
        }
        proof {
            reveal_strlit("");
        }
        if parts[i].len() > 0 && !crate::text::same_chars(parts[i].as_slice(), here.as_slice()) {
            named = true;
        }
        assert(parts@[i as int]@.len() == 0 ==> parts@[i as int]@ =~= ""@);
        i = i + 1;
    }
    if !named {
        return CleanupAction::Stop;
    }
    let mut init = parts;
    init.pop();
    assert(crate::text::views(init@) =~= components(current@).drop_last());
    let next = crate::text::join_chars(&init, '/');
    CleanupAction::Remove { next: string_of(next.as_slice()) }
}

/// Source cleanup never removes a directory that is not empty, nor the project
/// directory or anything outside it: every directory it removes lies strictly
/// inside the project directory.
pub proof fn lemma_cleanup_safe(current: Seq<char>, present: bool, empty: bool)
    requires
        cleanup_removes(current, present, empty),
    ensures
        empty,
        current.len() > 0 && current[0] != '/',
        forall|i: int| 0 <= i < components(current).len() ==> #[trigger] components(current)[i] != ".."@,
        parent_of(current).len() < current.len(),
{
    crate::text::lemma_join_split(current, '/');
    let cs = components(current);
    crate::text::lemma_split_free(current, '/');
    if cs.len() > 1 {
        assert(current == join_with(cs.drop_last(), '/') + seq!['/'] + cs.last());
    } else {
        assert(parent_of(current) =~= Seq::<char>::empty());
    }
}

} // verus!
