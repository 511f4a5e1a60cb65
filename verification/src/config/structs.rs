//! The configuration: profiles, their mods, and modpacks.
use crate::config::filters::{copy_filters, filter_views, Filter, FilterView};
use crate::text::{ascii_lower, eq_ignore_ascii_case_spec};
use crate::text::{
    all_ascii, ascii_lower_seq, copy_string, is_white_space, leading_ws, owned, str_eq,
    to_lowercase, trailing_ws, trim, trim_spec, unicode_lowercase,
};
use vstd::prelude::*;

verus! {

/// The whole configuration.
#[derive(Debug)]
pub struct Config {
    pub active_profile: usize,
    pub profiles: Vec<Profile>,
    pub active_modpack: usize,
    pub modpacks: Vec<Modpack>,
}

/// Whether a number is zero (the configuration leaves such numbers out when saved).
pub fn is_zero(n: &usize) -> (r: bool)
    ensures
        r == (*n == 0),
{
    *n == 0
}

/// Whether a flag is false (the configuration leaves such flags out when saved).
pub fn is_false(b: &bool) -> (r: bool)
    ensures
        r == !*b,
{
    !*b
}

impl Config {
    /// An empty configuration, as written when there is no config file yet.
    pub fn empty() -> (r: Config)
        ensures
            r.active_profile == 0,
            r.profiles@.len() == 0,
            r.active_modpack == 0,
            r.modpacks@.len() == 0,
    {
        Config { active_profile: 0, profiles: Vec::new(), active_modpack: 0, modpacks: Vec::new() }
    }
}

/// A modpack in the configuration.
#[derive(Debug)]
pub struct Modpack {
    pub name: String,
    pub output_dir: String,
    pub install_overrides: bool,
    pub identifier: ModpackIdentifier,
}

/// Where a modpack comes from.
#[derive(Debug)]
pub enum ModpackIdentifier {
    CurseForgeModpack(i32),
    ModrinthModpack(String),
}

/// A profile: a set of mods with the filters that select their files.
#[derive(Debug)]
pub struct Profile {
    pub name: String,
    /// The directory to download mod files to
    pub output_dir: String,
    pub filters: Vec<Filter>,
    pub mods: Vec<Mod>,
    /// Kept for backwards compatibility reasons (i.e. migrating from a v4 config)
    pub game_version: Option<String>,
    pub mod_loader: Option<ModLoader>,
}

/// The mod loaders that a profile on `loader` accepts, in order of preference:
/// Quilt can also load Fabric mods.
pub open spec fn preferred_loaders(loader: ModLoader) -> Seq<ModLoader> {
    match loader {
        ModLoader::Quilt => seq![ModLoader::Quilt, ModLoader::Fabric],
        _ => seq![loader],
    }
}

/// The mod loaders that a profile on `loader` accepts, in order of preference.
pub fn loaders_for(loader: ModLoader) -> (r: Vec<ModLoader>)
    ensures
        r@ == preferred_loaders(loader),
{
    let mut v = Vec::new();
    match loader {
        ModLoader::Quilt => {
            v.push(ModLoader::Quilt);
            v.push(ModLoader::Fabric);
        },
        _ => {
            v.push(loader);
        },
    }
    assert(v@ =~= preferred_loaders(loader));
    v
}

impl Profile {
    /// A simple contructor that automatically deals with converting to filters
    pub fn new(name: String, output_dir: String, game_versions: Vec<String>, mod_loader: ModLoader) -> (r: Profile)
        ensures
            r.name == name,
            r.output_dir == output_dir,
            r.filters@.len() == 2,
            r.filters@[0]@ == FilterView::ModLoaderPrefer(preferred_loaders(mod_loader)),
            r.filters@[1] == Filter::GameVersionStrict(game_versions),
            r.mods@.len() == 0,
            r.game_version is None,
            r.mod_loader is None,
    {
        let mut filters = Vec::new();
        filters.push(Filter::ModLoaderPrefer(loaders_for(mod_loader)));
        filters.push(Filter::GameVersionStrict(game_versions));
        Profile { name, output_dir, filters, mods: Vec::new(), game_version: None, mod_loader: None }
    }

    /// Convert the v4 profile's `game_version` and `mod_loader` fields into filters.
    ///
    /// Returns the names of the mods that still carry the old per-mod check
    /// overrides, which the user should migrate to filters.
    pub fn backwards_compat(&mut self) -> (warn: Vec<String>)
        ensures
            final(self).name == old(self).name,
            final(self).output_dir == old(self).output_dir,
            final(self).mods == old(self).mods,
            (old(self).game_version is Some && old(self).mod_loader is Some)
                ==> ({
                let gv = old(self).game_version->0;
                let ml = old(self).mod_loader->0;
                &&& final(self).game_version is None
                &&& final(self).mod_loader is None
                &&& final(self).filters@.len() == 2
                &&& final(self).filters@[0]@ == FilterView::ModLoaderPrefer(preferred_loaders(ml))
                &&& final(self).filters@[1]@ == FilterView::GameVersionStrict(seq![gv@])
            }),
            !(old(self).game_version is Some && old(self).mod_loader is Some)
                ==> final(self).filters == old(self).filters,
            old(self).game_version is None ==> final(self).mod_loader
                == old(self).mod_loader,
            old(self).mod_loader is None ==> final(self).game_version
                == old(self).game_version,
            warn@.map_values(|s: String| s@) == old(self).mods@.filter(
                |m: Mod| m.has_check_overrides(),
            ).map_values(|m: Mod| m.name@),
    {
        let gv = self.game_version.take();
        let ml = self.mod_loader.take();
        match (gv, ml) {
            (Some(version), Some(loader)) => {
                let mut filters = Vec::new();
                filters.push(Filter::ModLoaderPrefer(loaders_for(loader)));
                let mut versions = Vec::new();
                versions.push(version);
                let ghost vv = versions@;
                filters.push(Filter::GameVersionStrict(versions));
                self.filters = filters;
                assert(crate::text::views(vv) =~= seq![vv[0]@]);
            },
            (gv2, ml2) => {
                self.game_version = gv2;
                self.mod_loader = ml2;
            },
        }
        let mut warn: Vec<String> = Vec::new();
        let mut i: usize = 0;
        let ghost pred = |m: Mod| m.has_check_overrides();
        while i < self.mods.len()
            invariant
                i <= self.mods.len(),
                pred == (|m: Mod| m.has_check_overrides()),
                warn@.map_values(|s: String| s@) == self.mods@.take(i as int).filter(pred).map_values(
                    |m: Mod| m.name@,
                ),
            decreases self.mods.len() - i,
        {
            let ghost before = self.mods@.take(i as int);
            proof {
                assert(self.mods@.take(i + 1) =~= before.push(self.mods@[i as int]));
                before.lemma_filter_push(self.mods@[i as int], pred);
            }
            if self.mods[i].check_game_version.is_some() || self.mods[i].check_mod_loader.is_some() {
                let n = copy_string(&self.mods[i].name);
                warn.push(n);
                assert(warn@.map_values(|s: String| s@) =~= before.filter(pred).map_values(
                    |m: Mod| m.name@,
                ).push(self.mods@[i as int].name@));
            }
            assert(warn@.map_values(|s: String| s@) =~= self.mods@.take(i + 1).filter(
                pred,
            ).map_values(|m: Mod| m.name@));
            i = i + 1;
        }
        assert(self.mods@.take(self.mods.len() as int) =~= self.mods@);
        warn
    }

    /// Add a mod to the profile.
    pub fn push_mod(
        &mut self,
        name: String,
        identifier: ModIdentifier,
        slug: String,
        override_filters: bool,
        filters: Vec<Filter>,
    )
        ensures
            final(self).name == old(self).name,
            final(self).output_dir == old(self).output_dir,
            final(self).filters == old(self).filters,
            final(self).game_version == old(self).game_version,
            final(self).mod_loader == old(self).mod_loader,
            final(self).mods@.len() == old(self).mods@.len() + 1,
            final(self).mods@.drop_last() == old(self).mods@,
            final(self).mods@.last().name == name,
            final(self).mods@.last().identifier == identifier,
            final(self).mods@.last().slug == Some(slug),
            final(self).mods@.last().filters == filters,
            final(self).mods@.last().override_filters == override_filters,
            !final(self).mods@.last().has_check_overrides(),
    {
        self.mods.push(
            Mod {
                name,
                slug: Some(slug),
                identifier,
                filters,
                override_filters,
                check_game_version: None,
                check_mod_loader: None,
            },
        );
        assert(self.mods@.drop_last() =~= old(self).mods@);
    }
}

/// A mod of a profile.
#[derive(Debug)]
pub struct Mod {
    pub name: String,
    pub identifier: ModIdentifier,
    // Is an `Option` for backwards compatibility reasons,
    // since the slug field didn't exist in older ferium versions
    pub slug: Option<String>,
    /// Custom filters that apply only for this mod
    pub filters: Vec<Filter>,
    /// Whether the filters specified above replace or apply with the profile's filters
    pub override_filters: bool,
    /// Kept for backwards compatibility reasons
    pub check_game_version: Option<bool>,
    pub check_mod_loader: Option<bool>,
}

impl Mod {
    pub fn new(name: String, identifier: ModIdentifier, filters: Vec<Filter>, override_filters: bool) -> (r: Mod)
        ensures
            r.name == name,
            r.identifier == identifier,
            r.slug is None,
            r.filters == filters,
            r.override_filters == override_filters,
            !r.has_check_overrides(),
    {
        Mod {
            name,
            slug: None,
            identifier,
            filters,
            override_filters,
            check_game_version: None,
            check_mod_loader: None,
        }
    }

    /// Whether the mod carries the check overrides of older versions.
    pub open spec fn has_check_overrides(&self) -> bool {
        self.check_game_version is Some || self.check_mod_loader is Some
    }

    /// A copy of this mod.
    pub fn duplicate(&self) -> (r: Mod)
        ensures
            r@ == self@,
            r.check_game_version == self.check_game_version,
            r.check_mod_loader == self.check_mod_loader,
    {
        let slug = match &self.slug {
            Some(s) => Some(copy_string(s)),
            None => None,
        };
        Mod {
            name: copy_string(&self.name),
            identifier: self.identifier.duplicate(),
            slug,
            filters: copy_filters(&self.filters),
            override_filters: self.override_filters,
            check_game_version: self.check_game_version,
            check_mod_loader: self.check_mod_loader,
        }
    }
}

/// The mathematical value of a `Mod`.
pub struct ModView {
    pub name: Seq<char>,
    pub identifier: ModIdentifierView,
    pub slug: Option<Seq<char>>,
    pub filters: Seq<FilterView>,
    pub override_filters: bool,
    pub check_game_version: Option<bool>,
    pub check_mod_loader: Option<bool>,
}

impl View for Mod {
    type V = ModView;

    open spec fn view(&self) -> ModView {
        ModView {
            name: self.name@,
            identifier: self.identifier@,
            slug: match self.slug {
                Some(s) => Some(s@),
                None => None,
            },
            filters: filter_views(self.filters@),
            override_filters: self.override_filters,
            check_game_version: self.check_game_version,
            check_mod_loader: self.check_mod_loader,
        }
    }
}

/// The identifier of a project on one of the platforms, possibly pinned to one file.
#[derive(Debug)]
pub enum ModIdentifier {
    CurseForgeProject(i32),
    ModrinthProject(String),
    GitHubRepository(String, String),
    PinnedCurseForgeProject(i32, i32),
    PinnedModrinthProject(String, String),
    PinnedGitHubRepository((String, String), i32),
}

/// The mathematical value of a `ModIdentifier`.
pub enum ModIdentifierView {
    CurseForgeProject(i32),
    ModrinthProject(Seq<char>),
    GitHubRepository(Seq<char>, Seq<char>),
    PinnedCurseForgeProject(i32, i32),
    PinnedModrinthProject(Seq<char>, Seq<char>),
    PinnedGitHubRepository(Seq<char>, Seq<char>, i32),
}

impl View for ModIdentifier {
    type V = ModIdentifierView;

    open spec fn view(&self) -> ModIdentifierView {
        match self {
            ModIdentifier::CurseForgeProject(id) => ModIdentifierView::CurseForgeProject(*id),
            ModIdentifier::ModrinthProject(id) => ModIdentifierView::ModrinthProject(id@),
            ModIdentifier::GitHubRepository(o, r) => ModIdentifierView::GitHubRepository(o@, r@),
            ModIdentifier::PinnedCurseForgeProject(id, p) => ModIdentifierView::PinnedCurseForgeProject(
                *id,
                *p,
            ),
            ModIdentifier::PinnedModrinthProject(id, p) => ModIdentifierView::PinnedModrinthProject(
                id@,
                p@,
            ),
            ModIdentifier::PinnedGitHubRepository((o, r), p) => ModIdentifierView::PinnedGitHubRepository(
                o@,
                r@,
                *p,
            ),
        }
    }
}

/// Whether two identifiers name the same project, whatever file either is pinned to.
pub open spec fn same_project(a: ModIdentifierView, b: ModIdentifierView) -> bool {
    match (a, b) {
        (
            ModIdentifierView::CurseForgeProject(x),
            ModIdentifierView::CurseForgeProject(y),
        ) => x == y,
        (
            ModIdentifierView::CurseForgeProject(x),
            ModIdentifierView::PinnedCurseForgeProject(y, _),
        ) => x == y,
        (
            ModIdentifierView::PinnedCurseForgeProject(x, _),
            ModIdentifierView::CurseForgeProject(y),
        ) => x == y,
        (
            ModIdentifierView::PinnedCurseForgeProject(x, _),
            ModIdentifierView::PinnedCurseForgeProject(y, _),
        ) => x == y,
        (ModIdentifierView::ModrinthProject(x), ModIdentifierView::ModrinthProject(y)) => x == y,
        (
            ModIdentifierView::ModrinthProject(x),
            ModIdentifierView::PinnedModrinthProject(y, _),
        ) => x == y,
        (
            ModIdentifierView::PinnedModrinthProject(x, _),
            ModIdentifierView::ModrinthProject(y),
        ) => x == y,
        (
            ModIdentifierView::PinnedModrinthProject(x, _),
            ModIdentifierView::PinnedModrinthProject(y, _),
        ) => x == y,
        (
            ModIdentifierView::GitHubRepository(o1, r1),
            ModIdentifierView::GitHubRepository(o2, r2),
        ) => o1 == o2 && r1 == r2,
        (
            ModIdentifierView::GitHubRepository(o1, r1),
            ModIdentifierView::PinnedGitHubRepository(o2, r2, _),
        ) => o1 == o2 && r1 == r2,
        (
            ModIdentifierView::PinnedGitHubRepository(o1, r1, _),
            ModIdentifierView::GitHubRepository(o2, r2),
        ) => o1 == o2 && r1 == r2,
        (
            ModIdentifierView::PinnedGitHubRepository(o1, r1, _),
            ModIdentifierView::PinnedGitHubRepository(o2, r2, _),
        ) => o1 == o2 && r1 == r2,
        _ => false,
    }
}

impl ModIdentifier {
    /// A copy of this identifier.
    pub fn duplicate(&self) -> (r: ModIdentifier)
        ensures
            r@ == self@,
    {
        match self {
            ModIdentifier::CurseForgeProject(id) => ModIdentifier::CurseForgeProject(*id),
            ModIdentifier::ModrinthProject(id) => ModIdentifier::ModrinthProject(copy_string(id)),
            ModIdentifier::GitHubRepository(o, r) => ModIdentifier::GitHubRepository(
                copy_string(o),
                copy_string(r),
            ),
            ModIdentifier::PinnedCurseForgeProject(id, p) => ModIdentifier::PinnedCurseForgeProject(
                *id,
                *p,
            ),
            ModIdentifier::PinnedModrinthProject(id, p) => ModIdentifier::PinnedModrinthProject(
                copy_string(id),
                copy_string(p),
            ),
            ModIdentifier::PinnedGitHubRepository((o, r), p) => ModIdentifier::PinnedGitHubRepository(
                (copy_string(o), copy_string(r)),
                *p,
            ),
        }
    }

    /// Whether both identifiers are equal, pins included.
    pub fn equals(&self, other: &ModIdentifier) -> (r: bool)
        ensures
            r == (self@ == other@),
    {
        match (self, other) {
            (ModIdentifier::CurseForgeProject(a), ModIdentifier::CurseForgeProject(b)) => *a == *b,
            (ModIdentifier::ModrinthProject(a), ModIdentifier::ModrinthProject(b)) => str_eq(
                a.as_str(),
                b.as_str(),
            ),
            (ModIdentifier::GitHubRepository(a, b), ModIdentifier::GitHubRepository(c, d)) => str_eq(
                a.as_str(),
                c.as_str(),
            ) && str_eq(b.as_str(), d.as_str()),
            (
                ModIdentifier::PinnedCurseForgeProject(a, b),
                ModIdentifier::PinnedCurseForgeProject(c, d),
            ) => *a == *c && *b == *d,
            (
                ModIdentifier::PinnedModrinthProject(a, b),
                ModIdentifier::PinnedModrinthProject(c, d),
            ) => str_eq(a.as_str(), c.as_str()) && str_eq(b.as_str(), d.as_str()),
            (
                ModIdentifier::PinnedGitHubRepository((a, b), p),
                ModIdentifier::PinnedGitHubRepository((c, d), q),
            ) => *p == *q && str_eq(a.as_str(), c.as_str()) && str_eq(b.as_str(), d.as_str()),
            _ => false,
        }
    }

    /// Whether both identifiers name the same project, ignoring pins.
    pub fn is_same_as(&self, other: &ModIdentifier) -> (r: bool)
        ensures
            r == same_project(self@, other@),
    {
        match (self, other) {
            (ModIdentifier::CurseForgeProject(a), ModIdentifier::CurseForgeProject(b))
            | (ModIdentifier::CurseForgeProject(a), ModIdentifier::PinnedCurseForgeProject(b, _))
            | (ModIdentifier::PinnedCurseForgeProject(a, _), ModIdentifier::CurseForgeProject(b))
            | (
                ModIdentifier::PinnedCurseForgeProject(a, _),
                ModIdentifier::PinnedCurseForgeProject(b, _),
            ) => *a == *b,
            (ModIdentifier::ModrinthProject(a), ModIdentifier::ModrinthProject(b))
            | (ModIdentifier::ModrinthProject(a), ModIdentifier::PinnedModrinthProject(b, _))
            | (ModIdentifier::PinnedModrinthProject(a, _), ModIdentifier::ModrinthProject(b))
            | (
                ModIdentifier::PinnedModrinthProject(a, _),
                ModIdentifier::PinnedModrinthProject(b, _),
            ) => str_eq(a.as_str(), b.as_str()),
            (ModIdentifier::GitHubRepository(a, b), ModIdentifier::GitHubRepository(c, d))
            | (
                ModIdentifier::GitHubRepository(a, b),
                ModIdentifier::PinnedGitHubRepository((c, d), _),
            )
            | (
                ModIdentifier::PinnedGitHubRepository((a, b), _),
                ModIdentifier::GitHubRepository(c, d),
            )
            | (
                ModIdentifier::PinnedGitHubRepository((a, b), _),
                ModIdentifier::PinnedGitHubRepository((c, d), _),
            ) => str_eq(a.as_str(), c.as_str()) && str_eq(b.as_str(), d.as_str()),
            _ => false,
        }
    }
}

/// A mod loader.
#[derive(Clone, Copy, Debug, PartialEq, Eq, Structural)]
pub enum ModLoader {
    Quilt,
    Fabric,
    Forge,
    NeoForge,
}

/// The error of parsing a string that names no mod loader.
#[derive(Clone, Copy, Debug, PartialEq, Eq, Structural)]
pub struct ModLoaderParseError;

/// The name a mod loader is displayed with.
pub open spec fn mod_loader_text(l: ModLoader) -> Seq<char> {
    match l {
        ModLoader::Quilt => "Quilt"@,
        ModLoader::Fabric => "Fabric"@,
        ModLoader::Forge => "Forge"@,
        ModLoader::NeoForge => "NeoForge"@,
    }
}

/// The mod loader that a lowercase name denotes.
pub open spec fn mod_loader_named(s: Seq<char>) -> Option<ModLoader> {
    if s == "quilt"@ {
        Some(ModLoader::Quilt)
    } else if s == "fabric"@ {
        Some(ModLoader::Fabric)
    } else if s == "forge"@ {
        Some(ModLoader::Forge)
    } else if s == "neoforge"@ {
        Some(ModLoader::NeoForge)
    } else {
        None
    }
}

/// The text that parsing `s` as a mod loader compares with the loaders'
/// names: the Unicode lowercase of `s` without surrounding white space (for
/// ASCII text the Unicode lowercase is the ASCII lowercase).
pub open spec fn loader_key(s: Seq<char>) -> Seq<char> {
    let t = trim_spec(s);
    if all_ascii(t) {
        ascii_lower_seq(t)
    } else {
        unicode_lowercase(t)
    }
}

/// What parsing `s` as a mod loader gives: the loader whose name is
/// `loader_key(s)`, or an error.
pub open spec fn parse_mod_loader(s: Seq<char>) -> Result<ModLoader, ModLoaderParseError> {
    match mod_loader_named(loader_key(s)) {
        Some(l) => Ok(l),
        None => Err(ModLoaderParseError),
    }
}

impl ModLoader {
    /// Parses a mod loader's name; case-insensitive, surrounding white space ignored.
    pub fn from_str(from: &str) -> (r: Result<ModLoader, ModLoaderParseError>)
        ensures
            r == parse_mod_loader(from@),
    {
        let t = trim(from);
        let l = to_lowercase(t.as_str());
        let s = l.as_str();
        if str_eq(s, "quilt") {
            Ok(ModLoader::Quilt)
        } else if str_eq(s, "fabric") {
            Ok(ModLoader::Fabric)
        } else if str_eq(s, "forge") {
            Ok(ModLoader::Forge)
        } else if str_eq(s, "neoforge") {
            Ok(ModLoader::NeoForge)
        } else {
            Err(ModLoaderParseError)
        }
    }

    /// The name the mod loader is displayed with.
    pub fn display(&self) -> (r: String)
        ensures
            r@ == mod_loader_text(*self),
    {
        match self {
            ModLoader::Quilt => owned("Quilt"),
            ModLoader::Fabric => owned("Fabric"),
            ModLoader::Forge => owned("Forge"),
            ModLoader::NeoForge => owned("NeoForge"),
        }
    }
}

proof fn lemma_trim_no_edges(s: Seq<char>)
    requires
        s.len() > 0,
        !is_white_space(s[0]),
        !is_white_space(s.last()),
    ensures
        trim_spec(s) == s,
{
    assert(leading_ws(s) == 0);
    assert(s.skip(0) =~= s);
    assert(trailing_ws(s) == 0);
    assert(s.take(s.len() as int) =~= s);
}

/// Parsing the displayed name of a mod loader gives the same mod loader back.
proof fn lemma_mod_loader_roundtrip(l: ModLoader)
    ensures
        parse_mod_loader(mod_loader_text(l)) == Ok::<ModLoader, ModLoaderParseError>(l),
{
    reveal_strlit("Quilt");
    reveal_strlit("Fabric");
    reveal_strlit("Forge");
    reveal_strlit("NeoForge");
    reveal_strlit("quilt");
    reveal_strlit("fabric");
    reveal_strlit("forge");
    reveal_strlit("neoforge");
    let t = mod_loader_text(l);
    lemma_trim_no_edges(t);
    assert(all_ascii(t));
    match l {
        ModLoader::Quilt => {
            assert(ascii_lower_seq(t) =~= "quilt"@);
        },
        ModLoader::Fabric => {
            assert(ascii_lower_seq(t) =~= "fabric"@);
            assert("fabric"@ != "quilt"@);
        },
        ModLoader::Forge => {
            assert(ascii_lower_seq(t) =~= "forge"@);
            assert("forge"@[0] != "quilt"@[0]);
            assert("forge"@ != "quilt"@);
            assert("forge"@ != "fabric"@);
        },
        ModLoader::NeoForge => {
            assert(ascii_lower_seq(t) =~= "neoforge"@);
            assert("neoforge"@ != "quilt"@);
            assert("neoforge"@ != "fabric"@);
            assert("neoforge"@ != "forge"@);
        },
    }
}

/// Parsing the displayed name of a mod loader written in any ASCII case gives
/// the same mod loader back.
proof fn lemma_mod_loader_any_case(l: ModLoader, s: Seq<char>)
    requires
        eq_ignore_ascii_case_spec(s, mod_loader_text(l)),
    ensures
        parse_mod_loader(s) == Ok::<ModLoader, ModLoaderParseError>(l),
{
    lemma_mod_loader_roundtrip(l);
    reveal_strlit("Quilt");
    reveal_strlit("Fabric");
    reveal_strlit("Forge");
    reveal_strlit("NeoForge");
    let t = mod_loader_text(l);
    lemma_trim_no_edges(t);
    assert(all_ascii(t));
    assert forall|i: int| 0 <= i < t.len() implies 'a' <= ascii_lower(#[trigger] t[i]) <= 'z' by {
    }
    assert forall|i: int| 0 <= i < s.len() implies (#[trigger] s[i] as u32) < 128 by {
        assert(ascii_lower(s[i]) == ascii_lower(t[i]));
    }
    assert(!is_white_space(s[0])) by {
        assert(ascii_lower(s[0]) == ascii_lower(t[0]));
    }
    assert(!is_white_space(s.last())) by {
        assert(ascii_lower(s[s.len() - 1]) == ascii_lower(t[t.len() - 1]));
    }
    lemma_trim_no_edges(s);
    assert(ascii_lower_seq(s) =~= ascii_lower_seq(t)) by {
        assert forall|i: int| 0 <= i < s.len() implies ascii_lower_seq(s)[i] == ascii_lower_seq(t)[i] by {
            assert(ascii_lower(s[i]) == ascii_lower(t[i]));
        }
    }
}

/// Mod loader names read back: the name a mod loader is displayed with parses
/// to that mod loader, and so does that name in any ASCII case (`Fabric`,
/// `fabric`, `FABRIC`); a text whose lowercase, without surrounding white
/// space, is none of `quilt`, `fabric`, `forge` and `neoforge` is an error.
pub proof fn lemma_mod_loader_names(l: ModLoader, t: Seq<char>, s: Seq<char>)
    ensures
        parse_mod_loader(mod_loader_text(l)) == Ok::<ModLoader, ModLoaderParseError>(l),
        eq_ignore_ascii_case_spec(t, mod_loader_text(l)) ==> parse_mod_loader(t) == Ok::<ModLoader, ModLoaderParseError>(l),
        !(loader_key(s) == "quilt"@ || loader_key(s) == "fabric"@ || loader_key(s) == "forge"@ || loader_key(s) == "neoforge"@)
            ==> parse_mod_loader(s) == Err::<ModLoader, ModLoaderParseError>(ModLoaderParseError),
{
    lemma_mod_loader_roundtrip(l);
    if eq_ignore_ascii_case_spec(t, mod_loader_text(l)) {
        lemma_mod_loader_any_case(l, t);
    }
}

} // verus!
