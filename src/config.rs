//! The project descriptor: identity, enabled loaders, enabled add-ons and
//! pinned versions.
use vstd::prelude::*;
use crate::text::{append_str, chars_of, string_of};

verus! {

/// The descriptor's file name inside a project directory.
pub const CONFIG_FILE: &'static str = "mcmod.toml";

#[derive(Debug)]
pub struct McmodConfig {
    pub mod_info: ModInfo,
    pub loaders: Loaders,
    pub features: Features,
    pub versions: Versions,
}

#[derive(Debug)]
pub struct ModInfo {
    pub mod_id: String,
    pub mod_name: String,
    pub package: String,
    pub author: String,
    pub description: String,
    pub language: String,
}

#[derive(Debug, Clone, Copy)]
pub struct Loaders {
    pub fabric: bool,
    pub neoforge: bool,
}

#[derive(Debug, Clone, Copy)]
pub struct Features {
    pub ci: bool,
}

#[derive(Debug)]
pub struct Versions {
    pub minecraft: String,
    pub fabric_loader: String,
    pub fabric_api: String,
    pub neoforge: String,
}

impl Default for Versions {
    fn default() -> (r: Versions)
        ensures
            r.minecraft@ == "1.21.4"@,
            r.fabric_loader@ == "0.16.9"@,
            r.fabric_api@ == "0.111.0+1.21.4"@,
            r.neoforge@ == "21.4.156"@,
    {
        Versions {
            minecraft: "1.21.4".to_owned(),
            fabric_loader: "0.16.9".to_owned(),
            fabric_api: "0.111.0+1.21.4".to_owned(),
            neoforge: "21.4.156".to_owned(),
        }
    }
}

impl Clone for Versions {
    fn clone(&self) -> (r: Versions)
        ensures
            r.minecraft@ == self.minecraft@,
            r.fabric_loader@ == self.fabric_loader@,
            r.fabric_api@ == self.fabric_api@,
            r.neoforge@ == self.neoforge@,
    {
        Versions {
            minecraft: self.minecraft.clone(),
            fabric_loader: self.fabric_loader.clone(),
            fabric_api: self.fabric_api.clone(),
            neoforge: self.neoforge.clone(),
        }
    }
}

impl Clone for ModInfo {
    fn clone(&self) -> (r: ModInfo)
        ensures
            r.mod_id@ == self.mod_id@,
            r.mod_name@ == self.mod_name@,
            r.package@ == self.package@,
            r.author@ == self.author@,
            r.description@ == self.description@,
            r.language@ == self.language@,
    {
        ModInfo {
            mod_id: self.mod_id.clone(),
            mod_name: self.mod_name.clone(),
            package: self.package.clone(),
            author: self.author.clone(),
            description: self.description.clone(),
            language: self.language.clone(),
        }
    }
}

impl Clone for McmodConfig {
    fn clone(&self) -> (r: McmodConfig)
        ensures
            r@ == self@,
    {
        McmodConfig {
            mod_info: self.mod_info.clone(),
            loaders: Loaders { fabric: self.loaders.fabric, neoforge: self.loaders.neoforge },
            features: Features { ci: self.features.ci },
            versions: self.versions.clone(),
        }
    }
}

/// What a descriptor holds, as plain values.
pub struct DescriptorView {
    pub mod_id: Seq<char>,
    pub mod_name: Seq<char>,
    pub package: Seq<char>,
    pub author: Seq<char>,
    pub description: Seq<char>,
    pub language: Seq<char>,
    pub fabric: bool,
    pub neoforge: bool,
    pub ci: bool,
    pub minecraft: Seq<char>,
    pub fabric_loader: Seq<char>,
    pub fabric_api: Seq<char>,
    pub neoforge_version: Seq<char>,
}

impl View for McmodConfig {
    type V = DescriptorView;

    open spec fn view(&self) -> DescriptorView {
        DescriptorView {
            mod_id: self.mod_info.mod_id@,
            mod_name: self.mod_info.mod_name@,
            package: self.mod_info.package@,
            author: self.mod_info.author@,
            description: self.mod_info.description@,
            language: self.mod_info.language@,
            fabric: self.loaders.fabric,
            neoforge: self.loaders.neoforge,
            ci: self.features.ci,
            minecraft: self.versions.minecraft@,
            fabric_loader: self.versions.fabric_loader@,
            fabric_api: self.versions.fabric_api@,
            neoforge_version: self.versions.neoforge@,
        }
    }
}

/// The names of the enabled loaders, fabric first.
pub open spec fn platform_names(fabric: bool, neoforge: bool) -> Seq<Seq<char>> {
    if fabric && neoforge {
        seq!["fabric"@, "neoforge"@]
    } else if fabric {
        seq!["fabric"@]
    } else if neoforge {
        seq!["neoforge"@]
    } else {
        Seq::<Seq<char>>::empty()
    }
}

/// `dir` joined with the relative path `name`.
pub open spec fn join_path(dir: Seq<char>, name: Seq<char>) -> Seq<char> {
    if dir.len() == 0 {
        name
    } else if dir.last() == '/' {
        dir + name
    } else {
        dir + seq!['/'] + name
    }
}

impl McmodConfig {
    pub fn new(
        mod_id: String,
        mod_name: String,
        package: String,
        author: String,
        description: String,
        language: String,
        fabric: bool,
        neoforge: bool,
        ci: bool,
        versions: Versions,
    ) -> (r: McmodConfig)
        ensures
            r.mod_info.mod_id == mod_id,
            r.mod_info.mod_name == mod_name,
            r.mod_info.package == package,
            r.mod_info.author == author,
            r.mod_info.description == description,
            r.mod_info.language == language,
            r.loaders.fabric == fabric,
            r.loaders.neoforge == neoforge,
            r.features.ci == ci,
            r.versions == versions,
    {
        McmodConfig {
            mod_info: ModInfo { mod_id, mod_name, package, author, description, language },
            loaders: Loaders { fabric, neoforge },
            features: Features { ci },
            versions,
        }
    }

    /// The names of the enabled loaders, fabric first.
    pub fn enabled_platforms(&self) -> (r: Vec<&'static str>)
        ensures
            r@.map_values(|p: &str| p@) == platform_names(self.loaders.fabric, self.loaders.neoforge),
    {
        let mut platforms: Vec<&'static str> = Vec::new();
        if self.loaders.fabric {
            platforms.push("fabric");
        }
        if self.loaders.neoforge {
            platforms.push("neoforge");
        }
        assert(platforms@.map_values(|p: &str| p@) =~= platform_names(
            self.loaders.fabric,
            self.loaders.neoforge,
        ));
        platforms
    }

    /// The path of the descriptor file inside the project directory `dir`.
    pub fn config_path(dir: &str) -> (r: String)
        ensures
            r@ == join_path(dir@, CONFIG_FILE@),
    {
        let d = chars_of(dir);
        let mut out = d.clone();
        if d.len() == 0 {
            append_str(&mut out, CONFIG_FILE);
        } else if d[d.len() - 1] == '/' {
            append_str(&mut out, CONFIG_FILE);
        } else {
            out.push('/');
            append_str(&mut out, CONFIG_FILE);
        }
        assert(d@.len() == 0 ==> out@ =~= CONFIG_FILE@);
        string_of(out.as_slice())
    }
}

} // verus!
