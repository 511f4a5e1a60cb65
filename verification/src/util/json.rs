//! The records of the configuration file, and the choices of the first-time setup.
use crate::text::{copy_string, owned, str_eq};
use vstd::prelude::*;

verus! {

pub struct Profile {
    /// The profile's name
    pub name: String,
    /// The directory to download mod JARs to
    pub output_dir: String,
    /// Check if versions/releases are compatible with this Minecraft version
    pub game_version: String,
    /// Check if versions/releases are compatible with this mod loader
    pub mod_loader: ModLoaders,
    /// A list of mod slugs/IDs of Modrinth mods to download
    pub mod_ids: Vec<String>,
    /// A list GitHub repositories to download
    pub repos: Vec<(String, String)>,
}

pub struct Config {
    /// The index of the active profile
    pub active_profile: usize,
    /// The profiles
    pub profiles: Vec<Profile>,
}

#[derive(Debug, Clone, Copy, PartialEq, Eq, Structural)]
pub enum ModLoaders {
    Fabric,
    Forge,
}

/// The name a mod loader is shown with.
pub open spec fn loader_name(l: ModLoaders) -> Seq<char> {
    match l {
        ModLoaders::Fabric => "Fabric"@,
        ModLoaders::Forge => "Forge"@,
    }
}

impl ModLoaders {
    /// The name the mod loader is shown with.
    pub fn name(&self) -> (r: String)
        ensures
            r@ == loader_name(*self),
    {
        match self {
            ModLoaders::Fabric => owned("Fabric"),
            ModLoaders::Forge => owned("Forge"),
        }
    }

    /// The loader picked from the list offered, Fabric then Forge: the first
    /// entry is Fabric and any other Forge.
    pub fn picked(index: usize) -> (r: ModLoaders)
        ensures
            r == (if index == 0 {
                ModLoaders::Fabric
            } else {
                ModLoaders::Forge
            }),
    {
        if index == 0 {
            ModLoaders::Fabric
        } else {
            ModLoaders::Forge
        }
    }
}

/// The names of the mod loaders offered, in the order they are listed.
pub fn mod_loader_names() -> (r: Vec<String>)
    ensures
        r@.len() == 2,
        r@[0]@ == loader_name(ModLoaders::Fabric),
        r@[1]@ == loader_name(ModLoaders::Forge),
{
    let mut v: Vec<String> = Vec::new();
    v.push(owned("Fabric"));
    v.push(owned("Forge"));
    v
}

/// Whether a profile of `config` already has the name.
pub open spec fn name_taken(config: Config, name: Seq<char>) -> bool {
    exists|i: int| 0 <= i < config.profiles@.len() && #[trigger] config.profiles@[i].name@ == name
}

impl Config {
    /// The configuration written where there is none: no profiles, the first active.
    pub fn empty() -> (r: Config)
        ensures
            r.active_profile == 0,
            r.profiles@.len() == 0,
    {
        Config { active_profile: 0, profiles: Vec::new() }
    }

    /// Whether a profile already has the name: the setup asks again for one
    /// while it does.
    pub fn has_profile_named(&self, name: &str) -> (r: bool)
        ensures
            r == name_taken(*self, name@),
    {
        let mut i: usize = 0;
        while i < self.profiles.len()
            invariant
                i <= self.profiles.len(),
                forall|j: int| 0 <= j < i ==> self.profiles@[j].name@ != name@,
            decreases self.profiles.len() - i,
        {
            if str_eq(self.profiles[i].name.as_str(), name) {
                return true;
            }
            i = i + 1;
        }
        false
    }
}

impl Profile {
    /// The profile that the first-time setup makes from the user's choices:
    /// no mods and no repositories yet.
    pub fn from_choices(name: String, output_dir: String, game_version: String, mod_loader: ModLoaders) -> (r: Profile)
        ensures
            r.name@ == name@,
            r.output_dir@ == output_dir@,
            r.game_version@ == game_version@,
            r.mod_loader == mod_loader,
            r.mod_ids@.len() == 0,
            r.repos@.len() == 0,
    {
        Profile { name, output_dir, game_version, mod_loader, mod_ids: Vec::new(), repos: Vec::new() }
    }
}

/// The version picked from the latest versions offered.
pub fn picked_version(versions: &Vec<String>, index: usize) -> (r: String)
    requires
        index < versions@.len(),
    ensures
        r@ == versions@[index as int]@,
{
    copy_string(&versions[index])
}

/// The folders, below the home directory, of the configuration file.
pub fn config_file_parts() -> (r: Vec<String>)
    ensures
        r@.len() == 3,
        r@[0]@ == ".config"@,
        r@[1]@ == "ferium"@,
        r@[2]@ == "config.json"@,
{
    let mut v: Vec<String> = Vec::new();
    v.push(owned(".config"));
    v.push(owned("ferium"));
    v.push(owned("config.json"));
    v
}

} // verus!
