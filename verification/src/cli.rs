//! The arguments of ferium's commands, as far as the library reads them.
use crate::config::filters::{filter_views, Filter, FilterView, ReleaseChannel};
use crate::config::structs::ModLoader;
use crate::text::{owned, views};
use vstd::prelude::*;

verus! {

/// Filter arguments, all optional
#[derive(Debug)]
pub struct FilterArguments {
    pub override_profile: bool,
    pub mod_loader_prefer: Vec<ModLoader>,
    pub mod_loader_any: Vec<ModLoader>,
    pub game_version_strict: Vec<String>,
    pub game_version_minor: Vec<String>,
    pub release_channel: Option<ReleaseChannel>,
    pub filename: Option<String>,
    pub title: Option<String>,
    pub description: Option<String>,
}

/// The filters that the arguments give, in this order: loaders preferred,
/// loaders accepted, game versions (strict, then minor), release channel,
/// filename, title, description; each only where given.
pub open spec fn argument_filters(a: FilterArguments) -> Seq<FilterView> {
    let s0: Seq<FilterView> = Seq::empty();
    let s1 = if a.mod_loader_prefer@.len() > 0 {
        s0.push(FilterView::ModLoaderPrefer(a.mod_loader_prefer@))
    } else {
        s0
    };
    let s2 = if a.mod_loader_any@.len() > 0 {
        s1.push(FilterView::ModLoaderAny(a.mod_loader_any@))
    } else {
        s1
    };
    let s3 = if a.game_version_strict@.len() > 0 {
        s2.push(FilterView::GameVersionStrict(views(a.game_version_strict@)))
    } else {
        s2
    };
    let s4 = if a.game_version_minor@.len() > 0 {
        s3.push(FilterView::GameVersionMinor(views(a.game_version_minor@)))
    } else {
        s3
    };
    let s5 = match a.release_channel {
        Some(c) => s4.push(FilterView::ReleaseChannel(c)),
        None => s4,
    };
    let s6 = match a.filename {
        Some(r) => s5.push(FilterView::Filename(r@)),
        None => s5,
    };
    let s7 = match a.title {
        Some(r) => s6.push(FilterView::Title(r@)),
        None => s6,
    };
    match a.description {
        Some(r) => s7.push(FilterView::Description(r@)),
        None => s7,
    }
}

impl FilterArguments {
    /// The filters that the arguments give.
    pub fn into_filters(self) -> (r: Vec<Filter>)
        ensures
            filter_views(r@) == argument_filters(self),
    {
        let ghost a = self;
        let mut filters: Vec<Filter> = Vec::new();
        let ghost mut expect: Seq<FilterView> = Seq::empty();
        assert(filter_views(filters@) =~= expect);
        if self.mod_loader_prefer.len() > 0 {
            filters.push(Filter::ModLoaderPrefer(self.mod_loader_prefer));
            proof {
                expect = expect.push(FilterView::ModLoaderPrefer(a.mod_loader_prefer@));
            }
            assert(filter_views(filters@) =~= expect);
        }
        if self.mod_loader_any.len() > 0 {
            filters.push(Filter::ModLoaderAny(self.mod_loader_any));
            proof {
                expect = expect.push(FilterView::ModLoaderAny(a.mod_loader_any@));
            }
            assert(filter_views(filters@) =~= expect);
        }
        if self.game_version_strict.len() > 0 {
            filters.push(Filter::GameVersionStrict(self.game_version_strict));
            proof {
                expect = expect.push(FilterView::GameVersionStrict(views(a.game_version_strict@)));
            }
            assert(filter_views(filters@) =~= expect);
        }
        if self.game_version_minor.len() > 0 {
            filters.push(Filter::GameVersionMinor(self.game_version_minor));
            proof {
                expect = expect.push(FilterView::GameVersionMinor(views(a.game_version_minor@)));
            }
            assert(filter_views(filters@) =~= expect);
        }
        if let Some(c) = self.release_channel {
            filters.push(Filter::ReleaseChannel(c));
            proof {
                expect = expect.push(FilterView::ReleaseChannel(c));
            }
            assert(filter_views(filters@) =~= expect);
        }
        if let Some(r) = self.filename {
            proof {
                expect = expect.push(FilterView::Filename(r@));
            }
            filters.push(Filter::Filename(r));
            assert(filter_views(filters@) =~= expect);
        }
        if let Some(r) = self.title {
            proof {
                expect = expect.push(FilterView::Title(r@));
            }
            filters.push(Filter::Title(r));
            assert(filter_views(filters@) =~= expect);
        }
        if let Some(r) = self.description {
            proof {
                expect = expect.push(FilterView::Description(r@));
            }
            filters.push(Filter::Description(r));
            assert(filter_views(filters@) =~= expect);
        }
        filters
    }
}

/// The platform to prefer where a file is on both.
#[derive(Clone, Copy, Debug, PartialEq, Eq, Structural)]
pub enum Platform {
    Modrinth,
    Curseforge,
}

impl Platform {
    /// The platform chosen where none is given.
    pub fn default_platform() -> (r: Platform)
        ensures
            r == Platform::Modrinth,
    {
        Platform::Modrinth
    }

    /// The name the platform is displayed with.
    pub fn display(&self) -> (r: String)
        ensures
            *self == Platform::Modrinth ==> r@ == "modrinth"@,
            *self == Platform::Curseforge ==> r@ == "curseforge"@,
    {
        match self {
            Platform::Modrinth => owned("modrinth"),
            Platform::Curseforge => owned("curseforge"),
        }
    }
}

/// The subcommands of `ferium profile`.
#[derive(Debug)]
pub enum ProfileSubCommands {
    /// Configure the current profile's name, Minecraft version, mod loader, and output directory.
    /// Optionally, provide the settings to change as arguments.
    Configure {
        game_versions: Vec<String>,
        mod_loaders: Vec<ModLoader>,
        name: Option<String>,
        output_dir: Option<String>,
    },
    /// Create a new profile.
    /// Optionally, provide the settings as arguments.
    /// Use the import flag to import mods from another profile.
    Create {
        import: Option<Option<String>>,
        game_version: Vec<String>,
        mod_loader: Option<ModLoader>,
        name: Option<String>,
        output_dir: Option<String>,
    },
    /// Delete a profile.
    /// Optionally, provide the name of the profile to delete.
    Delete { profile_name: Option<String>, switch_to: Option<String> },
    /// Show information about the current profile
    Info,
    /// List all the profiles with their data
    List,
    /// Import a profile from a file.
    Import { name: Option<String>, path: Option<String>, output_dir: Option<String> },
    /// Switch between different profiles.
    /// Optionally, provide the name of the profile to switch to.
    Switch { profile_name: Option<String> },
}

/// The subcommands of `ferium modpack`.
#[derive(Debug)]
pub enum ModpackSubCommands {
    /// Add a modpack to the config
    Add { identifier: String, output_dir: Option<String>, install_overrides: Option<bool> },
    /// Configure the current modpack's output directory and installation of overrides.
    /// Optionally, provide the settings to change as arguments.
    Configure { output_dir: Option<String>, install_overrides: Option<bool> },
    /// Delete a modpack.
    /// Optionally, provide the name of the modpack to delete.
    Delete { modpack_name: Option<String>, switch_to: Option<String> },
    /// Show information about the current modpack
    Info,
    /// List all the modpacks with their data
    List,
    /// Switch between different modpacks.
    /// Optionally, provide the name of the modpack to switch to.
    Switch { modpack_name: Option<String> },
    /// Download and install the latest version of the modpack
    Upgrade,
}

} // verus!
