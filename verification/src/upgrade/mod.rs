//! What is known about one downloadable file of a project, and where to get it.
pub mod check;

use crate::config::filters::ReleaseChannel;
use crate::modpack::modrinth::ModpackFile as ModpackModFile;
use crate::config::structs::{parse_mod_loader, ModIdentifier, ModIdentifierView, ModLoader};
use crate::text::last_index_of;
use crate::text::{
    copy_string, copy_strings, owned, split_any, split_spec, starts_with_spec, strip_prefixes, strip_suffixes,
    trim_end_matches, trim_start_matches, views,
};
use vstd::prelude::*;

verus! {

/// What the filters look at in one file of a project.
#[derive(Debug)]
pub struct Metadata {
    /// The title of the GitHub Release, Modrinth Version, or CurseForge File
    pub title: String,
    /// The body of the GitHub Release, or the changelog of the Modrinth Version
    pub description: String,
    pub filename: String,
    pub channel: ReleaseChannel,
    pub game_versions: Vec<String>,
    pub loaders: Vec<ModLoader>,
}

/// The mathematical value of a `Metadata`.
pub struct MetadataView {
    pub title: Seq<char>,
    pub description: Seq<char>,
    pub filename: Seq<char>,
    pub channel: ReleaseChannel,
    pub game_versions: Seq<Seq<char>>,
    pub loaders: Seq<ModLoader>,
}

impl View for Metadata {
    type V = MetadataView;

    open spec fn view(&self) -> MetadataView {
        MetadataView {
            title: self.title@,
            description: self.description@,
            filename: self.filename@,
            channel: self.channel,
            game_versions: views(self.game_versions@),
            loaders: self.loaders@,
        }
    }
}

/// The views of a sequence of `Metadata`.
pub open spec fn metadata_views(v: Seq<Metadata>) -> Seq<MetadataView> {
    v.map_values(|m: Metadata| m@)
}

/// The mod loaders that some of `names` denote, in order; the others are skipped.
pub open spec fn known_loaders(names: Seq<Seq<char>>) -> Seq<ModLoader>
    decreases names.len(),
{
    if names.len() == 0 {
        Seq::empty()
    } else {
        let rest = known_loaders(names.drop_last());
        match parse_mod_loader(names.last()) {
            Ok(l) => rest.push(l),
            Err(_) => rest,
        }
    }
}

/// The mod loaders that some of `names` denote, in order.
pub fn loaders_named(names: &Vec<String>) -> (r: Vec<ModLoader>)
    ensures
        r@ == known_loaders(views(names@)),
{
    let mut r: Vec<ModLoader> = Vec::new();
    let mut i: usize = 0;
    while i < names.len()
        invariant
            i <= names.len(),
            r@ == known_loaders(views(names@).take(i as int)),
        decreases names.len() - i,
    {
        assert(views(names@).take(i + 1).drop_last() =~= views(names@).take(i as int));
        assert(views(names@).take(i + 1).last() == names@[i as int]@);
        match ModLoader::from_str(names[i].as_str()) {
            Ok(l) => r.push(l),
            Err(_) => {},
        }
        i = i + 1;
    }
    assert(views(names@).take(names.len() as int) =~= views(names@));
    r
}

/// The parts of a release asset's name, without its `.jar`: the pieces between
/// `-`, `_` and `+`.
pub open spec fn asset_name_parts(name: Seq<char>) -> Seq<Seq<char>> {
    split_spec(strip_suffixes(name, ".jar"@), seq!['-', '_', '+'])
}

/// The game versions a release asset's name tells: its parts, without any
/// leading `mc`.
pub open spec fn asset_game_versions(name: Seq<char>) -> Seq<Seq<char>> {
    asset_name_parts(name).map_values(|p: Seq<char>| strip_prefixes(p, "mc"@))
}

/// The parts of a release asset's name.
fn name_parts(name: &String) -> (r: Vec<String>)
    ensures
        views(r@) == asset_name_parts(name@),
{
    let base = trim_end_matches(name.as_str(), ".jar");
    let seps: Vec<char> = vec!['-', '_', '+'];
    assert(seps@ =~= seq!['-', '_', '+']);
    split_any(base.as_str(), &seps)
}

/// The game versions and mod loaders a release asset's name tells.
pub fn asset_tags(name: &String) -> (r: (Vec<String>, Vec<ModLoader>))
    ensures
        views(r.0@) == asset_game_versions(name@),
        r.1@ == known_loaders(asset_name_parts(name@)),
{
    let parts = name_parts(name);
    let mut versions: Vec<String> = Vec::new();
    let mut i: usize = 0;
    while i < parts.len()
        invariant
            i <= parts.len(),
            views(versions@) == views(parts@).take(i as int).map_values(
                |p: Seq<char>| strip_prefixes(p, "mc"@),
            ),
        decreases parts.len() - i,
    {
        let v = trim_start_matches(parts[i].as_str(), "mc");
        let ghost before = views(versions@);
        versions.push(v);
        assert(views(parts@).take(i + 1) =~= views(parts@).take(i as int).push(parts@[i as int]@));
        assert(views(versions@) =~= before.push(strip_prefixes(parts@[i as int]@, "mc"@)));
        assert(views(versions@) =~= views(parts@).take(i + 1).map_values(
            |p: Seq<char>| strip_prefixes(p, "mc"@),
        ));
        i = i + 1;
    }
    assert(views(parts@).take(parts.len() as int) =~= views(parts@));
    let loaders = loaders_named(&parts);
    (versions, loaders)
}

/// The kind of release of a file on CurseForge or Modrinth.
#[derive(Clone, Copy, Debug, PartialEq, Eq, Structural)]
pub enum ReleaseType {
    Release,
    Beta,
    Alpha,
}

/// The release channel of a kind of release.
pub open spec fn channel_of(t: ReleaseType) -> ReleaseChannel {
    match t {
        ReleaseType::Release => ReleaseChannel::Release,
        ReleaseType::Beta => ReleaseChannel::Beta,
        ReleaseType::Alpha => ReleaseChannel::Alpha,
    }
}

fn channel(t: ReleaseType) -> (r: ReleaseChannel)
    ensures
        r == channel_of(t),
{
    match t {
        ReleaseType::Release => ReleaseChannel::Release,
        ReleaseType::Beta => ReleaseChannel::Beta,
        ReleaseType::Alpha => ReleaseChannel::Alpha,
    }
}

/// Where a file is downloaded from and to, and what it needs.
#[derive(Debug)]
pub struct DownloadData {
    pub download_url: String,
    /// The path of the downloaded file relative to the output directory
    ///
    /// The filename by default, but can be configured with subdirectories for modpacks.
    pub output: String,
    /// The length of the file in bytes
    pub length: usize,
    /// The dependencies this file has
    pub dependencies: Vec<ModIdentifier>,
    /// Other mods this file is incompatible with
    pub conflicts: Vec<ModIdentifier>,
}

/// The views of a list of identifiers.
pub open spec fn identifier_views(v: Seq<ModIdentifier>) -> Seq<ModIdentifierView> {
    v.map_values(|m: ModIdentifier| m@)
}

/// The developer of a project denied third party applications from downloading
/// it: the ids of the mod and of its file.
#[derive(Debug)]
pub struct DistributionDeniedError(pub i32, pub i32);

impl DistributionDeniedError {
    /// The message the error is displayed with.
    pub fn message(&self) -> (r: String)
        ensures
            r@ == "The developer of this project has denied third party applications from downloading it"@,
    {
        owned(
            "The developer of this project has denied third party applications from downloading it",
        )
    }
}

/// How a file on CurseForge relates to another project.
#[derive(Clone, Copy, Debug, PartialEq, Eq, Structural)]
pub enum FileRelationType {
    EmbeddedLibrary,
    OptionalDependency,
    RequiredDependency,
    Tool,
    Incompatible,
    Include,
}

/// A project that a file on CurseForge relates to.
#[derive(Clone, Copy, Debug, PartialEq, Eq, Structural)]
pub struct FileDependency {
    pub mod_id: i32,
    pub relation_type: FileRelationType,
}

/// A file on CurseForge, as far as ferium looks at it.
#[derive(Debug)]
pub struct CurseForgeFile {
    pub id: i32,
    pub mod_id: i32,
    pub display_name: String,
    pub file_name: String,
    pub release_type: ReleaseType,
    pub file_length: i64,
    /// Where to download it, unless the developer denies third party applications
    pub download_url: Option<String>,
    pub game_versions: Vec<String>,
    pub dependencies: Vec<FileDependency>,
}

/// The projects that the dependencies of a CurseForge file relate to in `kind`.
pub open spec fn cf_related(deps: Seq<FileDependency>, kind: FileRelationType) -> Seq<ModIdentifierView> {
    deps.filter(|d: FileDependency| d.relation_type == kind).map_values(
        |d: FileDependency| ModIdentifierView::CurseForgeProject(d.mod_id),
    )
}

fn cf_related_ids(deps: &Vec<FileDependency>, kind: FileRelationType) -> (r: Vec<ModIdentifier>)
    ensures
        identifier_views(r@) == cf_related(deps@, kind),
{
    let ghost pred = |d: FileDependency| d.relation_type == kind;
    let mut r: Vec<ModIdentifier> = Vec::new();
    let mut i: usize = 0;
    while i < deps.len()
        invariant
            i <= deps.len(),
            pred == (|d: FileDependency| d.relation_type == kind),
            identifier_views(r@) == deps@.take(i as int).filter(pred).map_values(
                |d: FileDependency| ModIdentifierView::CurseForgeProject(d.mod_id),
            ),
        decreases deps.len() - i,
    {
        let d = deps[i];
        proof {
            assert(deps@.take(i + 1) =~= deps@.take(i as int).push(d));
            deps@.take(i as int).lemma_filter_push(d, pred);
        }
        let ghost before = identifier_views(r@);
        if d.relation_type == kind {
            r.push(ModIdentifier::CurseForgeProject(d.mod_id));
            assert(identifier_views(r@) =~= before.push(ModIdentifierView::CurseForgeProject(d.mod_id)));
        }
        assert(identifier_views(r@) =~= deps@.take(i + 1).filter(pred).map_values(
            |d: FileDependency| ModIdentifierView::CurseForgeProject(d.mod_id),
        ));
        i = i + 1;
    }
    assert(deps@.take(deps.len() as int) =~= deps@);
    r
}

/// What the filters look at in a CurseForge file, and where to get it; an
/// error where the developer denies third party downloads.
pub fn try_from_cf_file(file: CurseForgeFile) -> (r: Result<(Metadata, DownloadData), DistributionDeniedError>)
    ensures
        r is Err <==> file.download_url is None,
        r matches Err(e) ==> e.0 == file.mod_id && e.1 == file.id,
        r matches Ok((m, d)) ==> {
            &&& m@ == (MetadataView {
                title: file.display_name@,
                description: Seq::empty(),
                filename: file.file_name@,
                channel: channel_of(file.release_type),
                game_versions: views(file.game_versions@),
                loaders: known_loaders(views(file.game_versions@)),
            })
            &&& d.download_url@ == file.download_url->0@
            &&& d.output@ == file.file_name@
            &&& d.length == file.file_length as usize
            &&& identifier_views(d.dependencies@) == cf_related(
                file.dependencies@,
                FileRelationType::RequiredDependency,
            )
            &&& identifier_views(d.conflicts@) == cf_related(
                file.dependencies@,
                FileRelationType::Incompatible,
            )
        },
{
    let url = match &file.download_url {
        Some(u) => copy_string(u),
        None => {
            return Err(DistributionDeniedError(file.mod_id, file.id));
        },
    };
    let loaders = loaders_named(&file.game_versions);
    let dependencies = cf_related_ids(&file.dependencies, FileRelationType::RequiredDependency);
    let conflicts = cf_related_ids(&file.dependencies, FileRelationType::Incompatible);
    let output = copy_string(&file.file_name);
    let length = file.file_length as usize;
    let metadata = Metadata {
        title: file.display_name,
        description: String::new(),
        filename: file.file_name,
        channel: channel(file.release_type),
        game_versions: file.game_versions,
        loaders,
    };
    Ok((metadata, DownloadData { download_url: url, output, length, dependencies, conflicts }))
}

/// How a version on Modrinth relates to another project.
#[derive(Clone, Copy, Debug, PartialEq, Eq, Structural)]
pub enum DependencyType {
    Required,
    Optional,
    Incompatible,
    Embedded,
    Other,
}

/// A project (or one version of it) that a version on Modrinth relates to.
#[derive(Debug)]
pub struct ModrinthDependency {
    pub version_id: Option<String>,
    pub project_id: Option<String>,
    pub dependency_type: DependencyType,
}

/// A file of a version on Modrinth.
#[derive(Debug)]
pub struct VersionFile {
    pub url: String,
    pub filename: String,
    pub primary: bool,
    pub size: usize,
}

/// A version on Modrinth, as far as ferium looks at it.
#[derive(Debug)]
pub struct ModrinthVersion {
    pub name: String,
    pub changelog: Option<String>,
    pub version_type: ReleaseType,
    pub loaders: Vec<String>,
    pub game_versions: Vec<String>,
    pub files: Vec<VersionFile>,
    pub dependencies: Vec<ModrinthDependency>,
}

/// The file of a version that ferium downloads: the first primary one, else the first.
pub open spec fn version_file_index(files: Seq<VersionFile>) -> int {
    if exists|i: int| 0 <= i < files.len() && (#[trigger] files[i]).primary {
        choose|i: int|
            0 <= i < files.len() && (#[trigger] files[i]).primary && forall|j: int|
                0 <= j < i ==> !files[j].primary
    } else {
        0
    }
}

/// The index of the file of a version that ferium downloads.
pub fn version_file(files: &Vec<VersionFile>) -> (r: usize)
    requires
        files.len() > 0,
    ensures
        r == version_file_index(files@),
        r < files.len(),
{
    let mut i: usize = 0;
    while i < files.len()
        invariant
            i <= files.len(),
            forall|j: int| 0 <= j < i ==> !files@[j].primary,
        decreases files.len() - i,
    {
        if files[i].primary {
            assert(files@[i as int].primary);
            assert forall|k: int|
                0 <= k < files.len() && (#[trigger] files@[k]).primary && (forall|j: int|
                    0 <= j < k ==> !files@[j].primary) implies k == i by {
                if k < i {
                } else if k > i {
                    assert(!files@[i as int].primary);
                }
            }
            return i;
        }
        i = i + 1;
    }
    0
}

/// The identifier a dependency on Modrinth names: the project, pinned to the
/// version where one is given; none without a project.
pub open spec fn mr_dependency_id(d: ModrinthDependency) -> Option<ModIdentifierView> {
    match (d.project_id, d.version_id) {
        (Some(p), Some(v)) => Some(ModIdentifierView::PinnedModrinthProject(p@, v@)),
        (Some(p), None) => Some(ModIdentifierView::ModrinthProject(p@)),
        _ => None,
    }
}

/// The identifiers of the dependencies of kind `kind` that name a project, in order.
pub open spec fn mr_related(deps: Seq<ModrinthDependency>, kind: DependencyType) -> Seq<ModIdentifierView>
    decreases deps.len(),
{
    if deps.len() == 0 {
        Seq::empty()
    } else {
        let rest = mr_related(deps.drop_last(), kind);
        let d = deps.last();
        if d.dependency_type == kind && mr_dependency_id(d) is Some {
            rest.push(mr_dependency_id(d)->0)
        } else {
            rest
        }
    }
}

fn mr_related_ids(deps: &Vec<ModrinthDependency>, kind: DependencyType) -> (r: Vec<ModIdentifier>)
    ensures
        identifier_views(r@) == mr_related(deps@, kind),
{
    let mut r: Vec<ModIdentifier> = Vec::new();
    let mut i: usize = 0;
    while i < deps.len()
        invariant
            i <= deps.len(),
            identifier_views(r@) == mr_related(deps@.take(i as int), kind),
        decreases deps.len() - i,
    {
        let d = &deps[i];
        assert(deps@.take(i + 1).drop_last() =~= deps@.take(i as int));
        assert(deps@.take(i + 1).last() == *d);
        let ghost before = identifier_views(r@);
        if d.dependency_type == kind {
            match (&d.project_id, &d.version_id) {
                (Some(p), Some(v)) => {
                    r.push(ModIdentifier::PinnedModrinthProject(copy_string(p), copy_string(v)));
                    assert(identifier_views(r@) =~= before.push(mr_dependency_id(*d)->0));
                },
                (Some(p), None) => {
                    r.push(ModIdentifier::ModrinthProject(copy_string(p)));
                    assert(identifier_views(r@) =~= before.push(mr_dependency_id(*d)->0));
                },
                _ => {},
            }
        }
        i = i + 1;
    }
    assert(deps@.take(deps.len() as int) =~= deps@);
    r
}

/// What the filters look at in a Modrinth version, and where to get its file.
pub fn from_mr_version(version: ModrinthVersion) -> (r: (Metadata, DownloadData))
    requires
        version.files.len() > 0,
    ensures
        ({
            let f = version.files@[version_file_index(version.files@)];
            &&& r.0@ == (MetadataView {
                title: version.name@,
                description: match version.changelog {
                    Some(c) => c@,
                    None => Seq::empty(),
                },
                filename: f.filename@,
                channel: channel_of(version.version_type),
                game_versions: views(version.game_versions@),
                loaders: known_loaders(views(version.loaders@)),
            })
            &&& r.1.download_url@ == f.url@
            &&& r.1.output@ == f.filename@
            &&& r.1.length == f.size
            &&& identifier_views(r.1.dependencies@) == mr_related(
                version.dependencies@,
                DependencyType::Required,
            )
            &&& identifier_views(r.1.conflicts@) == mr_related(
                version.dependencies@,
                DependencyType::Incompatible,
            )
        }),
{
    let k = version_file(&version.files);
    let file = &version.files[k];
    let description = match &version.changelog {
        Some(c) => copy_string(c),
        None => String::new(),
    };
    let loaders = loaders_named(&version.loaders);
    let metadata = Metadata {
        title: copy_string(&version.name),
        description,
        filename: copy_string(&file.filename),
        channel: channel(version.version_type),
        game_versions: copy_strings(&version.game_versions),
        loaders,
    };
    let data = DownloadData {
        download_url: copy_string(&file.url),
        output: copy_string(&file.filename),
        length: file.size,
        dependencies: mr_related_ids(&version.dependencies, DependencyType::Required),
        conflicts: mr_related_ids(&version.dependencies, DependencyType::Incompatible),
    };
    (metadata, data)
}

/// An asset of a release on GitHub.
#[derive(Debug)]
pub struct GitHubAsset {
    pub id: i64,
    pub name: String,
    pub browser_download_url: String,
    pub size: i64,
}

/// A release on GitHub.
#[derive(Debug)]
pub struct GitHubRelease {
    pub name: Option<String>,
    pub body: Option<String>,
    pub prerelease: bool,
    pub assets: Vec<GitHubAsset>,
}

/// The text of an optional string, empty where there is none.
pub open spec fn text_or_empty(s: Option<String>) -> Seq<char> {
    match s {
        Some(t) => t@,
        None => Seq::empty(),
    }
}

fn copy_or_empty(s: &Option<String>) -> (r: String)
    ensures
        r@ == text_or_empty(*s),
{
    match s {
        Some(t) => copy_string(t),
        None => String::new(),
    }
}

/// What the filters look at in an asset of a release.
pub open spec fn gh_asset_metadata(release: GitHubRelease, asset: GitHubAsset) -> MetadataView {
    MetadataView {
        title: text_or_empty(release.name),
        description: text_or_empty(release.body),
        filename: asset.name@,
        channel: if release.prerelease {
            ReleaseChannel::Beta
        } else {
            ReleaseChannel::Release
        },
        game_versions: asset_game_versions(asset.name@),
        loaders: known_loaders(asset_name_parts(asset.name@)),
    }
}

/// Where to download an asset of a release to.
pub open spec fn gh_asset_download(asset: GitHubAsset, d: DownloadData) -> bool {
    &&& d.download_url@ == asset.browser_download_url@
    &&& d.output@ == asset.name@
    &&& d.length == asset.size as usize
    &&& d.dependencies@.len() == 0
    &&& d.conflicts@.len() == 0
}

/// Where to download an asset of a release on GitHub to.
pub fn from_gh_asset(asset: GitHubAsset) -> (r: DownloadData)
    ensures
        gh_asset_download(asset, r),
{
    let length = asset.size as usize;
    DownloadData {
        download_url: asset.browser_download_url,
        output: asset.name,
        length,
        dependencies: Vec::new(),
        conflicts: Vec::new(),
    }
}

/// The assets of the releases, release by release, in order.
pub open spec fn release_assets(releases: Seq<GitHubRelease>) -> Seq<(GitHubRelease, GitHubAsset)>
    decreases releases.len(),
{
    if releases.len() == 0 {
        Seq::empty()
    } else {
        let last = releases.last();
        release_assets(releases.drop_last()) + last.assets@.map_values(
            |a: GitHubAsset| (last, a),
        )
    }
}

/// What the filters look at in each asset of the releases, and where to get it.
pub fn from_gh_releases(releases: Vec<GitHubRelease>) -> (r: Vec<(Metadata, DownloadData)>)
    ensures
        r.len() == release_assets(releases@).len(),
        forall|i: int|
            0 <= i < r.len() ==> {
                let (rel, asset) = #[trigger] release_assets(releases@)[i];
                &&& r@[i].0@ == gh_asset_metadata(rel, asset)
                &&& gh_asset_download(asset, r@[i].1)
            },
{
    let mut r: Vec<(Metadata, DownloadData)> = Vec::new();
    let mut i: usize = 0;
    while i < releases.len()
        invariant
            i <= releases.len(),
            r.len() == release_assets(releases@.take(i as int)).len(),
            forall|k: int|
                0 <= k < r.len() ==> {
                    let (rel, asset) = #[trigger] release_assets(releases@.take(i as int))[k];
                    &&& r@[k].0@ == gh_asset_metadata(rel, asset)
                    &&& gh_asset_download(asset, r@[k].1)
                },
        decreases releases.len() - i,
    {
        let release = &releases[i];
        let ghost done = release_assets(releases@.take(i as int));
        assert(releases@.take(i + 1).drop_last() =~= releases@.take(i as int));
        assert(releases@.take(i + 1).last() == *release);
        let ghost all = release_assets(releases@.take(i + 1));
        assert(all == done + release.assets@.map_values(|a: GitHubAsset| (*release, a)));
        let mut j: usize = 0;
        while j < release.assets.len()
            invariant
                j <= release.assets.len(),
                r.len() == done.len() + j,
                all == done + release.assets@.map_values(|a: GitHubAsset| (*release, a)),
                forall|k: int|
                    0 <= k < r.len() ==> {
                        let (rel, asset) = #[trigger] all[k];
                        &&& r@[k].0@ == gh_asset_metadata(rel, asset)
                        &&& gh_asset_download(asset, r@[k].1)
                    },
            decreases release.assets.len() - j,
        {
            let asset = &release.assets[j];
            let (game_versions, loaders) = asset_tags(&asset.name);
            let metadata = Metadata {
                title: copy_or_empty(&release.name),
                description: copy_or_empty(&release.body),
                filename: copy_string(&asset.name),
                channel: if release.prerelease {
                    ReleaseChannel::Beta
                } else {
                    ReleaseChannel::Release
                },
                game_versions,
                loaders,
            };
            let length = asset.size as usize;
            let data = DownloadData {
                download_url: copy_string(&asset.browser_download_url),
                output: copy_string(&asset.name),
                length,
                dependencies: Vec::new(),
                conflicts: Vec::new(),
            };
            assert(all[done.len() + j] == (*release, *asset));
            r.push((metadata, data));
            j = j + 1;
        }
        assert(all.len() == done.len() + release.assets.len());
        i = i + 1;
    }
    assert(releases@.take(releases.len() as int) =~= releases@);
    r
}

/// The assets with the id `id`, in order.
pub open spec fn assets_with_id(assets: Seq<GitHubAsset>, id: i64) -> Seq<GitHubAsset>
    decreases assets.len(),
{
    if assets.len() == 0 {
        Seq::empty()
    } else {
        let r = assets_with_id(assets.drop_last(), id);
        if assets.last().id == id {
            r.push(assets.last())
        } else {
            r
        }
    }
}

/// The assets of a release with the id `id`.
fn keep_asset(assets: Vec<GitHubAsset>, id: i64) -> (r: Vec<GitHubAsset>)
    ensures
        r@ == assets_with_id(assets@, id),
{
    let ghost all = assets@;
    let mut rest = assets;
    let mut r: Vec<GitHubAsset> = Vec::new();
    let mut i: usize = 0;
    assert(all.len() <= usize::MAX) by {
        let n = rest.len();
    }
    while rest.len() > 0
        invariant
            i + rest@.len() == all.len(),
            all.len() <= usize::MAX,
            rest@ == all.skip(i as int),
            r@ == assets_with_id(all.take(i as int), id),
        decreases rest.len(),
    {
        let ghost rest_before = rest@;
        let a = rest.remove(0);
        assert(a == all[i as int]) by {
            assert(rest_before[0] == all.skip(i as int)[0]);
        }
        assert(rest@ =~= all.skip(i + 1));
        assert(all.take(i + 1).drop_last() =~= all.take(i as int));
        if a.id == id {
            r.push(a);
        }
        i = i + 1;
    }
    assert(all.take(i as int) =~= all);
    r
}

/// The releases of a repository pinned to one asset: each release keeps only
/// the asset with the id `asset_id`, so the files found are that asset alone.
pub fn pin_release_asset(releases: Vec<GitHubRelease>, asset_id: i64) -> (r: Vec<GitHubRelease>)
    ensures
        r@.len() == releases@.len(),
        forall|k: int| 0 <= k < r@.len() ==> {
            &&& (#[trigger] r@[k]).name == releases@[k].name
            &&& r@[k].body == releases@[k].body
            &&& r@[k].prerelease == releases@[k].prerelease
            &&& r@[k].assets@ == assets_with_id(releases@[k].assets@, asset_id)
        },
{
    let ghost all = releases@;
    let mut rest = releases;
    let mut r: Vec<GitHubRelease> = Vec::new();
    let mut i: usize = 0;
    assert(all.len() <= usize::MAX) by {
        let n = rest.len();
    }
    while rest.len() > 0
        invariant
            i + rest@.len() == all.len(),
            all.len() <= usize::MAX,
            rest@ == all.skip(i as int),
            r@.len() == i,
            forall|k: int| 0 <= k < i ==> {
                &&& (#[trigger] r@[k]).name == all[k].name
                &&& r@[k].body == all[k].body
                &&& r@[k].prerelease == all[k].prerelease
                &&& r@[k].assets@ == assets_with_id(all[k].assets@, asset_id)
            },
        decreases rest.len(),
    {
        let ghost rest_before = rest@;
        let rel = rest.remove(0);
        assert(rel == all[i as int]) by {
            assert(rest_before[0] == all.skip(i as int)[0]);
        }
        assert(rest@ =~= all.skip(i + 1));
        let GitHubRelease { name, body, prerelease, assets } = rel;
        let kept = keep_asset(assets, asset_id);
        r.push(GitHubRelease { name, body, prerelease, assets: kept });
        i = i + 1;
    }
    r
}

/// Where to download a file of a Modrinth modpack to: its first download URL.
pub fn from_modpack_file(file: ModpackModFile) -> (r: DownloadData)
    requires
        file.downloads.len() > 0,
    ensures
        r.download_url@ == file.downloads@[0]@,
        r.output@ == file.path@,
        r.length == file.file_size,
        r.dependencies@.len() == 0,
        r.conflicts@.len() == 0,
{
    DownloadData {
        download_url: copy_string(&file.downloads[0]),
        output: file.path,
        length: file.file_size,
        dependencies: Vec::new(),
        conflicts: Vec::new(),
    }
}

/// Whether `piece` stands in `whole` as one run of characters.
pub open spec fn is_piece_of(piece: Seq<char>, whole: Seq<char>) -> bool {
    exists|i: int, j: int| 0 <= i <= j <= whole.len() && whole.subrange(i, j) == piece
}

/// A path that is one plain name on every platform: not empty, not `.` or
/// `..`, and with no `/`, `\\` or `:`.
pub open spec fn is_plain_name(path: Seq<char>) -> bool {
    &&& path.len() > 0
    &&& path != seq!['.']
    &&& path != seq!['.', '.']
    &&& forall|i: int| 0 <= i < path.len() ==> #[trigger] path[i] != '/' && path[i] != '\\' && path[i] != ':'
}

/// What follows the last `/` of a path (the whole path where it has none).
pub open spec fn last_segment(path: Seq<char>) -> Seq<char> {
    match last_index_of(path, '/') {
        Some(k) => path.skip(k + 1),
        None => path,
    }
}

/// A path whose components are split by `/` alone on every platform: it
/// holds no `\\`, and does not start with `//` (which a platform may read as
/// the prefix of a network share).
pub open spec fn is_slash_path(path: Seq<char>) -> bool {
    &&& forall|i: int| 0 <= i < path.len() ==> #[trigger] path[i] != '\\'
    &&& !(path.len() >= 2 && path[0] == '/' && path[1] == '/')
}

/// Whether `name` can be the final component of `path`: one run of its
/// characters holding no `/`; the whole path where that is a plain name; and,
/// on a path split by `/` alone, what follows its last `/` where that is a
/// plain name.
pub open spec fn is_file_name_of(name: Seq<char>, path: Seq<char>) -> bool {
    &&& is_piece_of(name, path)
    &&& forall|i: int| 0 <= i < name.len() ==> #[trigger] name[i] != '/'
    &&& is_plain_name(path) ==> name == path
    &&& is_slash_path(path) && is_plain_name(last_segment(path)) ==> name == last_segment(path)
}

/// `std::path::Path::file_name`: the final component of the path, or nothing
/// (here the empty text) where the path has none (it ends in `..`, or is a
/// root or empty). Which characters besides `/` separate components depends
/// on the platform, so the contract claims that the name is one run of the
/// path's characters holding no `/`, that a plain name is its own file name,
/// and that on a path split by `/` alone a plain last segment is the file
/// name; what it is on other paths (a `\\` in them, a last segment that is
/// empty, `.` or `..`) is left unsaid.
#[verifier::external_body]
fn final_component(path: &str) -> (r: String)
    ensures
        is_file_name_of(r@, path@),
{
    std::path::Path::new(path).file_name().unwrap_or_default().to_string_lossy().to_string()
}

impl DownloadData {
    /// The name of the file once downloaded: the last component of `output`.
    pub fn filename(&self) -> (r: String)
        ensures
            is_file_name_of(r@, self.output@),
    {
        final_component(self.output.as_str())
    }
}

/// Stripping every leading `p` leaves a text that does not start with `p`;
/// a text that does not start with `p` is left as it is; and `p + v` is
/// stripped as `v` is.
proof fn lemma_strip_prefixes(s: Seq<char>, p: Seq<char>, v: Seq<char>)
    requires
        p.len() > 0,
    ensures
        !starts_with_spec(strip_prefixes(s, p), p),
        !starts_with_spec(s, p) ==> strip_prefixes(s, p) == s,
        strip_prefixes(p + v, p) == strip_prefixes(v, p),
    decreases s.len(),
{
    if starts_with_spec(s, p) {
        lemma_strip_prefixes(s.skip(p.len() as int), p, v);
    }
    assert((p + v).take(p.len() as int) =~= p);
    assert((p + v).skip(p.len() as int) =~= v);
}

/// No game version read from a release asset's name starts with `mc`: a part
/// of the name that does not start with `mc` is read as it is, and a part
/// `mc` followed by a version is read as that version.
pub proof fn lemma_asset_versions_without_mc(name: Seq<char>)
    ensures
        asset_game_versions(name).len() == asset_name_parts(name).len(),
        forall|i: int|
            0 <= i < asset_game_versions(name).len() ==> !starts_with_spec(#[trigger] asset_game_versions(name)[i], "mc"@),
        forall|i: int|
            0 <= i < asset_name_parts(name).len() && !starts_with_spec(#[trigger] asset_name_parts(name)[i], "mc"@)
                ==> asset_game_versions(name)[i] == asset_name_parts(name)[i],
{
    reveal_strlit("mc");
    assert forall|i: int| 0 <= i < asset_game_versions(name).len() implies !starts_with_spec(
        #[trigger] asset_game_versions(name)[i],
        "mc"@,
    ) by {
        lemma_strip_prefixes(asset_name_parts(name)[i], "mc"@, Seq::empty());
    }
    assert forall|i: int|
        0 <= i < asset_name_parts(name).len() && !starts_with_spec(#[trigger] asset_name_parts(name)[i], "mc"@)
        implies asset_game_versions(name)[i] == asset_name_parts(name)[i] by {
        lemma_strip_prefixes(asset_name_parts(name)[i], "mc"@, Seq::empty());
    }
}

/// A part of a release asset's name that is `mc` followed by a version `v`
/// (itself not starting with `mc`) is read as the game version `v`: so an
/// asset named `sodium-fabric-mc1.20.1-0.5.0.jar` tells the version `1.20.1`.
pub proof fn lemma_asset_version_after_mc(name: Seq<char>, i: int, v: Seq<char>)
    requires
        0 <= i < asset_name_parts(name).len(),
        asset_name_parts(name)[i] == "mc"@ + v,
        !starts_with_spec(v, "mc"@),
    ensures
        asset_game_versions(name)[i] == v,
        asset_game_versions(name).contains(v),
{
    reveal_strlit("mc");
    lemma_strip_prefixes(v, "mc"@, v);
    assert(asset_game_versions(name)[i] == strip_prefixes("mc"@ + v, "mc"@));
}

} // verus!
