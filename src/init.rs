//! Creating a new project: the answers gathered from the user become the
//! descriptor and the ordered list of files to write.
use vstd::prelude::*;
use crate::add::{
    add_ci_files, add_fabric_files, add_neoforge_files, append_steps, ci_files, fabric_files,
    has_file_vars, is_kotlin, neoforge_files, push_step, source_dir, source_ext, step_views, var,
    FileStep, StepView, Templates,
};
use crate::config::{DescriptorView, McmodConfig, Versions};
use crate::error::McmodError;
use crate::template::{render, rendered, standard_vars, TemplateVars};
use crate::text::{append_str, chars_of, join_chars, join_with, same_text, string_of, views};
use crate::util::{class_name, is_ident, is_package, validate_mod_id, validate_package};

verus! {

/// What the `init` command was given; absent values are asked for or defaulted.
pub struct InitOptions {
    pub dir: String,
    pub mod_id: Option<String>,
    pub mod_name: Option<String>,
    pub package: Option<String>,
    pub author: Option<String>,
    pub description: Option<String>,
    pub language: Option<String>,
    pub loaders: Vec<String>,
    pub ci: Option<bool>,
    pub offline: bool,
}

/// The package suggested for a mod id: `com.example.<id>`.
pub fn default_package(mod_id: &str) -> (r: String)
    ensures
        r@ == "com.example."@ + mod_id@,
{
    let mut out = chars_of("com.example.");
    append_str(&mut out, mod_id);
    string_of(out.as_slice())
}

/// The root project files that are text.
pub open spec fn base_files(vars: Seq<(Seq<char>, Seq<char>)>, language: Seq<char>, t: Templates) -> Seq<StepView> {
    let props = rendered(t.gradle_properties@, vars);
    seq![
        StepView::Write("build.gradle"@, t.build_gradle_root@),
        StepView::Write("settings.gradle"@, rendered(t.settings_gradle@, vars)),
        StepView::Write(
            "gradle.properties"@,
            if is_kotlin(language) { props + "\nmod_language=kotlin\nkotlin_version=2.1.0\n"@ } else { props },
        ),
        StepView::Write(".gitignore"@, t.gitignore@),
        StepView::Write("LICENSE"@, rendered(t.license@, vars)),
        StepView::Write("gradle/wrapper/gradle-wrapper.properties"@, t.gradle_wrapper_properties@),
    ]
}

/// The files of the shared module.
pub open spec fn common_files(vars: Seq<(Seq<char>, Seq<char>)>, language: Seq<char>, t: Templates) -> Seq<StepView> {
    let pp = var(vars, "package_path"@);
    let cn = var(vars, "class_name"@);
    let id = var(vars, "mod_id"@);
    let src = if is_kotlin(language) { t.common_mod_kt@ } else { t.common_mod_java@ };
    seq![
        StepView::Write("common/build.gradle"@, t.common_build_gradle@),
        StepView::Write(
            "common/src/main/"@ + source_dir(language) + "/"@ + pp + "/"@ + cn + "."@ + source_ext(language),
            rendered(src, vars),
        ),
        StepView::Write(
            "common/src/main/resources/assets/"@ + id + "/icon.png.txt"@,
            "Replace this file with your mod icon (icon.png)\n"@,
        ),
    ]
}

fn write_step(path: &str, content: String) -> (r: FileStep)
    ensures
        r@ == StepView::Write(path@, content@),
{
    FileStep::Write { path: path.to_owned(), content }
}

/// Writes the root project files that are text.
pub fn write_base_files(vars: &TemplateVars, language: &str, templates: &Templates) -> (r: Vec<FileStep>)
    ensures
        step_views(r@) == base_files(vars@, language@, *templates),
{
    let mut steps: Vec<FileStep> = Vec::new();
    push_step(&mut steps, write_step("build.gradle", templates.build_gradle_root.clone()));
    push_step(&mut steps, write_step("settings.gradle", render(templates.settings_gradle.as_str(), vars)));
    let props = render(templates.gradle_properties.as_str(), vars);
    let props = if same_text(language, "kotlin") {
        let mut p = chars_of(props.as_str());
        append_str(&mut p, "\nmod_language=kotlin\nkotlin_version=2.1.0\n");
        string_of(p.as_slice())
    } else {
        props
    };
    push_step(&mut steps, write_step("gradle.properties", props));
    push_step(&mut steps, write_step(".gitignore", templates.gitignore.clone()));
    push_step(&mut steps, write_step("LICENSE", render(templates.license.as_str(), vars)));
    push_step(&mut steps, write_step("gradle/wrapper/gradle-wrapper.properties", templates.gradle_wrapper_properties.clone()));
    assert(step_views(steps@) =~= base_files(vars@, language@, *templates));
    steps
}

/// Writes the files of the shared module.
pub fn write_common_module(vars: &TemplateVars, language: &str, templates: &Templates) -> (r: Vec<FileStep>)
    requires
        has_file_vars(vars@),
    ensures
        step_views(r@) == common_files(vars@, language@, *templates),
{
    let pp = match vars.get("package_path") { Some(v) => v, None => { assert(false); return Vec::new(); } };
    let cn = match vars.get("class_name") { Some(v) => v, None => { assert(false); return Vec::new(); } };
    let id = match vars.get("mod_id") { Some(v) => v, None => { assert(false); return Vec::new(); } };
    let kotlin = same_text(language, "kotlin");
    let mut steps: Vec<FileStep> = Vec::new();
    push_step(&mut steps, write_step("common/build.gradle", templates.common_build_gradle.clone()));
    let mut path = chars_of("common/src/main/");
    append_str(&mut path, if kotlin { "kotlin" } else { "java" });
    append_str(&mut path, "/");
    append_str(&mut path, pp.as_str());
    append_str(&mut path, "/");
    append_str(&mut path, cn.as_str());
    append_str(&mut path, ".");
    append_str(&mut path, if kotlin { "kt" } else { "java" });
    let src = if kotlin { templates.common_mod_kt.as_str() } else { templates.common_mod_java.as_str() };
    push_step(&mut steps, FileStep::Write { path: string_of(path.as_slice()), content: render(src, vars) });
    let mut icon = chars_of("common/src/main/resources/assets/");
    append_str(&mut icon, id.as_str());
    append_str(&mut icon, "/icon.png.txt");
    push_step(&mut steps, FileStep::Write {
        path: string_of(icon.as_slice()),
        content: "Replace this file with your mod icon (icon.png)\n".to_owned(),
    });
    assert(step_views(steps@) =~= common_files(vars@, language@, *templates));
    steps
}

/// The answers that a new project is made from.
pub struct InitAnswers {
    pub mod_id: String,
    pub mod_name: String,
    pub package: String,
    pub author: String,
    pub description: String,
    pub language: String,
    pub loaders: Vec<String>,
    pub ci: bool,
}

pub open spec fn string_views(v: Seq<String>) -> Seq<Seq<char>> {
    v.map_values(|l: String| l@)
}

pub open spec fn loader_names(a: InitAnswers) -> Seq<Seq<char>> {
    string_views(a.loaders@)
}

/// The files of a new project, in the order they are written.
pub open spec fn init_steps(a: InitAnswers, vars: Seq<(Seq<char>, Seq<char>)>, t: Templates) -> Seq<StepView> {
    let l = a.language@;
    let fabric = if loader_names(a).contains("fabric"@) {
        fabric_files(vars, l, t).push(StepView::AddInclude("fabric"@))
    } else {
        Seq::<StepView>::empty()
    };
    let neoforge = if loader_names(a).contains("neoforge"@) {
        neoforge_files(vars, l, t).push(StepView::AddInclude("neoforge"@))
    } else {
        Seq::<StepView>::empty()
    };
    let ci = if a.ci { ci_files(vars, t) } else { Seq::<StepView>::empty() };
    base_files(vars, l, t) + common_files(vars, l, t) + fabric + neoforge + ci
}

/// The template variables of a new project.
pub open spec fn init_vars(a: InitAnswers, v: Versions, year: Seq<char>) -> Seq<(Seq<char>, Seq<char>)> {
    standard_vars(a.mod_id@, a.mod_name@, a.package@, class_name(a.mod_id@), a.author@,
        a.description@, a.language@, v.minecraft@, v.fabric_loader@, v.fabric_api@, v.neoforge@,
        join_with(loader_names(a), ','), year)
}

fn has_loader(loaders: &Vec<String>, name: &str) -> (r: bool)
    ensures
        r == string_views(loaders@).contains(name@),
{
    let mut i: usize = 0;
    while i < loaders.len()
        invariant
            i <= loaders@.len(),
            forall|j: int| 0 <= j < i ==> loaders@[j]@ != name@,
        decreases loaders@.len() - i,
    {
        if same_text(loaders[i].as_str(), name) {
            assert(string_views(loaders@)[i as int] == name@);
            return true;
        }
        i = i + 1;
    }
    assert forall|j: int| 0 <= j < loaders@.len() implies #[trigger] string_views(loaders@)[j]
        != name@ by {
        assert(loaders@[j]@ != name@);
    }
    false
}

/// Plans a new project from the answers, with the copyright year given. An
/// invalid mod id or package, or an empty loader list, is refused.
pub fn plan_init(answers: InitAnswers, versions: Versions, templates: &Templates, year: &str) -> (r: Result<(Vec<FileStep>, McmodConfig), McmodError>)
    ensures
        !is_ident(answers.mod_id@) ==> (r matches Err(McmodError::InvalidModId(m)) && m@ == answers.mod_id@),
        is_ident(answers.mod_id@) && !is_package(answers.package@) ==> (r matches Err(
            McmodError::InvalidPackage(m),
        ) && m@ == answers.package@),
        is_ident(answers.mod_id@) && is_package(answers.package@) && answers.loaders@.len() == 0
            ==> (r matches Err(McmodError::Other(m)) && m@ == "At least one loader must be selected"@),
        is_ident(answers.mod_id@) && is_package(answers.package@) && answers.loaders@.len() > 0
            ==> (r matches Ok((steps, config)) && step_views(steps@) == init_steps(answers,
            init_vars(answers, versions, year@), *templates) && config@ == (DescriptorView {
            mod_id: answers.mod_id@,
            mod_name: answers.mod_name@,
            package: answers.package@,
            author: answers.author@,
            description: answers.description@,
            language: answers.language@,
            fabric: loader_names(answers).contains("fabric"@),
            neoforge: loader_names(answers).contains("neoforge"@),
            ci: answers.ci,
            minecraft: versions.minecraft@,
            fabric_loader: versions.fabric_loader@,
            fabric_api: versions.fabric_api@,
            neoforge_version: versions.neoforge@,
        })),
{
    match validate_mod_id(answers.mod_id.as_str()) {
        Ok(()) => {},
        Err(e) => { return Err(e); },
    }
    match validate_package(answers.package.as_str()) {
        Ok(()) => {},
        Err(e) => { return Err(e); },
    }
    if answers.loaders.len() == 0 {
        return Err(McmodError::Other("At least one loader must be selected".to_owned()));
    }
    let class_name = crate::util::derive_class_name(answers.mod_id.as_str());
    let has_fabric = has_loader(&answers.loaders, "fabric");
    let has_neoforge = has_loader(&answers.loaders, "neoforge");
    let mut pieces: Vec<Vec<char>> = Vec::new();
    let mut i: usize = 0;
    while i < answers.loaders.len()
        invariant
            i <= answers.loaders@.len(),
            views(pieces@) == loader_names(answers).take(i as int),
        decreases answers.loaders@.len() - i,
    {
        let ghost before = views(pieces@);
        let piece = chars_of(answers.loaders[i].as_str());
        pieces.push(piece);
        assert(views(pieces@) =~= before.push(piece@));
        assert(views(pieces@) =~= loader_names(answers).take(i + 1));
        i = i + 1;
    }
    assert(loader_names(answers).take(i as int) =~= loader_names(answers));
    let joined = join_chars(&pieces, ',');
    let platforms = string_of(joined.as_slice());
    let vars = crate::template::build_vars_with_year(
        answers.mod_id.as_str(), answers.mod_name.as_str(), answers.package.as_str(),
        class_name.as_str(), answers.author.as_str(), answers.description.as_str(),
        answers.language.as_str(), versions.minecraft.as_str(), versions.fabric_loader.as_str(),
        versions.fabric_api.as_str(), versions.neoforge.as_str(), platforms.as_str(), year,
    );
    proof {
        crate::template::lemma_standard_lookup(answers.mod_id@, answers.mod_name@,
            answers.package@, class_name@, answers.author@, answers.description@,
            answers.language@, versions.minecraft@, versions.fabric_loader@,
            versions.fabric_api@, versions.neoforge@, platforms@, year@);
    }
    let language = answers.language.as_str();
    let mut steps = write_base_files(&vars, language, templates);
    append_steps(&mut steps, write_common_module(&vars, language, templates));
    if has_fabric {
        append_steps(&mut steps, add_fabric_files(&vars, language, templates));
        push_step(&mut steps, FileStep::AddInclude { module: "fabric".to_owned() });
    }
    if has_neoforge {
        append_steps(&mut steps, add_neoforge_files(&vars, language, templates));
        push_step(&mut steps, FileStep::AddInclude { module: "neoforge".to_owned() });
    }
    if answers.ci {
        append_steps(&mut steps, add_ci_files(&vars, templates));
    }
    assert(step_views(steps@) =~= init_steps(answers, init_vars(answers, versions, year@), *templates));
    let ci = answers.ci;
    let config = McmodConfig::new(answers.mod_id, answers.mod_name, answers.package,
        answers.author, answers.description, answers.language, has_fabric, has_neoforge, ci,
        versions);
    Ok((steps, config))
}

} // verus!
