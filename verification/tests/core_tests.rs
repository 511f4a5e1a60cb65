use ferium::add::{add, classify, Error as AddError, Fetched, ModrinthProject};
use ferium::config::filters::{Filter, ProfileParameters, ReleaseChannel};
use ferium::config::structs::{Config, Mod, ModIdentifier, ModLoader, Profile};
use ferium::download::{clean_file, dedup_by_output, download_names, Existing};
use ferium::scan::{hash_files, hex_lower, scan_results};
use ferium::selection::{active_index, check_add_arguments, check_empty_profile, sort_mods, Active};
use ferium::subcommands::upgrade::{dependency_mod, pad_len, ResolveQueue};
use ferium::upgrade::check::{get_version_groups, select_latest, Error as CheckError, GameVersion, GameVersionType};
use ferium::upgrade::{from_gh_releases, pin_release_asset, try_from_cf_file, CurseForgeFile, DownloadData, GitHubAsset, GitHubRelease, Metadata, ReleaseType};

fn meta(name: &str, versions: &[&str], loaders: &[ModLoader]) -> Metadata {
    Metadata {
        title: name.to_string(),
        description: String::new(),
        filename: format!("{name}.jar"),
        channel: ReleaseChannel::Release,
        game_versions: versions.iter().map(|v| v.to_string()).collect(),
        loaders: loaders.to_vec(),
    }
}

fn standard_filters(version: &str) -> Vec<Filter> {
    vec![Filter::ModLoaderPrefer(vec![ModLoader::Fabric]), Filter::GameVersionStrict(vec![version.to_string()])]
}

#[test]
fn latest_compatible_file_is_the_first_that_passes() {
    let files = vec![
        meta("a", &["1.20.1"], &[ModLoader::Forge]),
        meta("b", &["1.20.1"], &[ModLoader::Fabric]),
        meta("c", &["1.19"], &[ModLoader::Fabric]),
    ];
    assert!(matches!(select_latest(&files, &standard_filters("1.20.1"), &Ok(vec![])), Ok(1)));
    assert!(matches!(select_latest(&files, &standard_filters("1.19"), &Ok(vec![])), Ok(2)));
}

#[test]
fn empty_filters_are_named() {
    let files = vec![meta("a", &["1.20.1"], &[ModLoader::Fabric])];
    match select_latest(&files, &standard_filters("1.21"), &Ok(vec![])) {
        Err(CheckError::FilterEmpty(names)) => assert_eq!(names, vec!["Game Version (1.21)"]),
        other => panic!("unexpected {other:?}"),
    }
    assert_eq!(
        CheckError::FilterEmpty(vec!["Game Version (1.21)".to_string()]).message(),
        "The following filter(s) were empty: Game Version (1.21)"
    );
}

#[test]
fn no_common_file_is_an_intersect_failure() {
    let files = vec![meta("a", &["1.20.1"], &[ModLoader::Forge]), meta("b", &["1.19"], &[ModLoader::Fabric])];
    let filters = vec![Filter::ModLoaderPrefer(vec![ModLoader::Forge]), Filter::GameVersionStrict(vec!["1.19".to_string()])];
    assert!(matches!(select_latest(&files, &filters, &Ok(vec![])), Err(CheckError::IntersectFailure)));
    assert_eq!(CheckError::IntersectFailure.message(), "Failed to find a compatible combination");
}

#[test]
fn bad_regex_and_missing_groups_fail_the_filters() {
    let files = vec![meta("a", &["1.20.1"], &[ModLoader::Fabric])];
    let filters = vec![Filter::ModLoaderPrefer(vec![ModLoader::Fabric]), Filter::Filename("(".to_string())];
    assert!(matches!(select_latest(&files, &filters, &Ok(vec![])), Err(CheckError::FilenameRegex(_))));
    let filters = vec![Filter::ModLoaderPrefer(vec![ModLoader::Fabric]), Filter::GameVersionMinor(vec!["1.20".to_string()])];
    match select_latest(&files, &filters, &Err("offline".to_string())) {
        Err(CheckError::VersionGrouping(m)) => assert_eq!(m, "offline"),
        other => panic!("unexpected {other:?}"),
    }
    let groups = Ok(vec![vec!["1.20.1".to_string(), "1.20".to_string()]]);
    assert!(matches!(select_latest(&files, &filters, &groups), Ok(0)));
}

#[test]
fn release_channel_and_title_filters() {
    let mut beta = meta("beta", &["1.20.1"], &[ModLoader::Fabric]);
    beta.channel = ReleaseChannel::Beta;
    let files = vec![beta, meta("stable", &["1.20.1"], &[ModLoader::Fabric])];
    let mut filters = standard_filters("1.20.1");
    filters.push(Filter::ReleaseChannel(ReleaseChannel::Release));
    assert!(matches!(select_latest(&files, &filters, &Ok(vec![])), Ok(1)));
    let mut filters = standard_filters("1.20.1");
    filters.push(Filter::Title("^bet".to_string()));
    assert!(matches!(select_latest(&files, &filters, &Ok(vec![])), Ok(0)));
}

#[test]
fn version_groups_split_after_major_versions() {
    let gv = |v: &str, t: GameVersionType, major: bool| GameVersion { version: v.to_string(), version_type: t, major, date: 0 };
    let versions = vec![
        gv("1.20.2", GameVersionType::Release, false),
        gv("23w31a", GameVersionType::Snapshot, false),
        gv("1.20.1", GameVersionType::Release, false),
        gv("1.20", GameVersionType::Release, true),
        gv("1.19.4", GameVersionType::Release, false),
        gv("1.19", GameVersionType::Release, true),
    ];
    let groups = get_version_groups(&versions);
    assert_eq!(groups, vec![vec!["1.20.2", "1.20.1", "1.20"], vec!["1.19.4", "1.19"], vec![]]);
}

#[test]
fn filters_read_back_what_was_set() {
    let mut filters = standard_filters("1.20.1");
    assert_eq!(filters.game_versions(), Some(&vec!["1.20.1".to_string()]));
    assert_eq!(filters.mod_loader(), Some(&ModLoader::Fabric));
    assert!(filters.set_game_versions(vec!["1.21".to_string()]));
    assert!(filters.set_mod_loaders(vec![ModLoader::Quilt, ModLoader::Fabric]));
    assert_eq!(filters.game_versions(), Some(&vec!["1.21".to_string()]));
    assert_eq!(filters.mod_loader(), Some(&ModLoader::Quilt));
    let mut none: Vec<Filter> = vec![];
    assert!(!none.set_game_versions(vec!["1.21".to_string()]));
    assert_eq!(none.game_versions(), None);
    assert_eq!(Filter::ModLoaderAny(vec![ModLoader::Forge, ModLoader::NeoForge]).display(), "Mod Loader Either (Forge, NeoForge)");
    assert_eq!(Filter::ReleaseChannel(ReleaseChannel::Beta).display(), "Release Channel (Beta)");
}

#[test]
fn mod_loader_names_round_trip() {
    for l in [ModLoader::Quilt, ModLoader::Fabric, ModLoader::Forge, ModLoader::NeoForge] {
        assert_eq!(ModLoader::from_str(&l.display()), Ok(l));
        assert_eq!(ModLoader::from_str(&l.display().to_uppercase()), Ok(l));
        assert_eq!(ModLoader::from_str(&l.display().to_lowercase()), Ok(l));
    }
    assert_eq!(ModLoader::from_str("  NeoForge "), Ok(ModLoader::NeoForge));
    assert!(ModLoader::from_str("liteloader").is_err());
}

#[test]
fn profile_new_prefers_quilt_then_fabric() {
    let p = Profile::new("P".to_string(), "/m".to_string(), vec!["1.20.1".to_string()], ModLoader::Quilt);
    match &p.filters[0] {
        Filter::ModLoaderPrefer(ls) => assert_eq!(ls, &vec![ModLoader::Quilt, ModLoader::Fabric]),
        _ => panic!("expected a mod loader filter"),
    }
    assert!(check_empty_profile(&p).is_err());
}

fn sodium() -> ModrinthProject {
    ModrinthProject {
        id: "AANobbMI".to_string(),
        slug: "sodium".to_string(),
        title: "Sodium".to_string(),
        is_mod: true,
        versions: vec!["v1".to_string()],
        game_versions: vec!["1.20.1".to_string()],
        loaders: vec!["fabric".to_string()],
    }
}

fn fetched(mr: Vec<ModrinthProject>) -> Fetched {
    Fetched { cf_projects: vec![], cf_files: vec![], mr_projects: mr, gh_repos: vec![], gh_errors: vec![] }
}

#[test]
fn adding_a_modrinth_project_then_again() {
    let mut p = Profile::new("P".to_string(), "/m".to_string(), vec!["1.20.1".to_string()], ModLoader::Fabric);
    let ids = vec![ModIdentifier::ModrinthProject("sodium".to_string())];
    let requests = classify(&ids);
    assert_eq!(requests.mr_project_ids, vec!["sodium"]);
    let (added, errors) = add(&mut p, ids, true, false, vec![], fetched(vec![sodium()]), &Ok(vec![]));
    assert_eq!(added.len(), 1);
    assert_eq!(added[0].0, "Sodium");
    assert!(errors.is_empty());
    assert_eq!(p.mods.len(), 1);
    assert_eq!(p.mods[0].name, "Sodium");
    assert_eq!(p.mods[0].slug, Some("sodium".to_string()));

    let ids = vec![ModIdentifier::ModrinthProject("SODIUM".to_string())];
    let (added, errors) = add(&mut p, ids, true, false, vec![], fetched(vec![sodium()]), &Ok(vec![]));
    assert!(added.is_empty());
    assert_eq!(errors.len(), 1);
    assert_eq!(errors[0].0, "Sodium (AANobbMI)");
    assert!(matches!(errors[0].1, AddError::AlreadyAdded));
}

#[test]
fn adding_reports_missing_and_incompatible_projects() {
    let mut p = Profile::new("P".to_string(), "/m".to_string(), vec!["1.21".to_string()], ModLoader::Fabric);
    let ids = vec![ModIdentifier::ModrinthProject("nothing".to_string())];
    let (added, errors) = add(&mut p, ids, true, false, vec![], fetched(vec![]), &Ok(vec![]));
    assert!(added.is_empty());
    assert_eq!(errors[0].0, "nothing");
    assert!(matches!(errors[0].1, AddError::DoesNotExist));

    let ids = vec![ModIdentifier::ModrinthProject("sodium".to_string())];
    let (added, errors) = add(&mut p, ids, true, false, vec![], fetched(vec![sodium()]), &Ok(vec![]));
    assert!(added.is_empty());
    assert_eq!(errors.len(), 1);
    assert_eq!(errors[0].0, "Sodium (AANobbMI)");
    assert!(matches!(errors[0].1, AddError::Incompatible(_)));
    assert!(p.mods.is_empty());

    // without checks it is added anyway
    let ids = vec![ModIdentifier::ModrinthProject("sodium".to_string())];
    let (added, _) = add(&mut p, ids, false, false, vec![], fetched(vec![sodium()]), &Ok(vec![]));
    assert_eq!(added.len(), 1);
}

#[test]
fn curseforge_files_without_address_are_denied() {
    let file = CurseForgeFile {
        id: 5,
        mod_id: 7,
        display_name: "X 1.0".to_string(),
        file_name: "x-1.0.jar".to_string(),
        release_type: ReleaseType::Beta,
        file_length: 42,
        download_url: None,
        game_versions: vec!["1.20.1".to_string(), "Fabric".to_string()],
        dependencies: vec![],
    };
    match try_from_cf_file(file) {
        Err(e) => {
            assert_eq!((e.0, e.1), (7, 5));
            assert_eq!(e.message(), "The developer of this project has denied third party applications from downloading it");
        }
        Ok(_) => panic!("expected a denial"),
    }
}

#[test]
fn github_assets_become_candidates() {
    let releases = vec![GitHubRelease {
        name: Some("v1".to_string()),
        body: None,
        prerelease: false,
        assets: vec![
            GitHubAsset { id: 1, name: "mod-fabric-1.20.1.jar".to_string(), browser_download_url: "https://gh/a.jar".to_string(), size: 10 },
            GitHubAsset { id: 2, name: "mod-sources.jar".to_string(), browser_download_url: "https://gh/s.jar".to_string(), size: 5 },
        ],
    }];
    let files = from_gh_releases(releases);
    assert!(!files.is_empty());
    assert_eq!(files[0].1.download_url, "https://gh/a.jar");
    assert!(files[0].0.loaders.contains(&ModLoader::Fabric));
}

#[test]
fn resolve_queue_resolves_each_project_once() {
    let m = |name: &str, id: ModIdentifier| Mod::new(name.to_string(), id, vec![], false);
    let mut q = ResolveQueue::new(vec![
        m("A", ModIdentifier::ModrinthProject("a".to_string())),
        m("A again", ModIdentifier::ModrinthProject("a".to_string())),
    ]);
    assert_eq!(q.next().map(|x| x.name), Some("A".to_string()));
    q.add_dependencies(vec![ModIdentifier::CurseForgeProject(3), ModIdentifier::PinnedModrinthProject("a".to_string(), "v".to_string())]);
    let next = q.next().unwrap();
    assert_eq!(next.name, "Dependency: 3");
    assert!(q.next().is_none());
    let d = dependency_mod(ModIdentifier::PinnedModrinthProject("x".to_string(), "v".to_string()));
    assert_eq!(d.name, "Dependency: x");
    assert!(matches!(d.identifier, ModIdentifier::ModrinthProject(ref id) if id == "x"));
    assert_eq!(pad_len(&vec![m("short", ModIdentifier::CurseForgeProject(1))]), 20);
}

fn dl(output: &str) -> DownloadData {
    DownloadData { download_url: format!("https://x/{output}"), output: output.to_string(), length: 1, dependencies: vec![], conflicts: vec![] }
}

#[test]
fn duplicates_and_existing_files() {
    let mut v = vec![dl("b.jar"), dl("a.jar"), dl("b.jar")];
    assert_eq!(dedup_by_output(&mut v), 1);
    assert_eq!(v.len(), 2);
    let mut names = download_names(&v);
    let mut install = vec![("config".to_string(), "/tmp/config".to_string())];
    assert_eq!(clean_file(&"a.jar".to_string(), &mut v, &mut names, &mut install), Existing::Kept);
    assert_eq!(v.len(), 1);
    assert_eq!(clean_file(&"config".to_string(), &mut v, &mut names, &mut install), Existing::Kept);
    assert!(install.is_empty());
    assert_eq!(clean_file(&"x.jar.part".to_string(), &mut v, &mut names, &mut install), Existing::Delete);
    assert_eq!(clean_file(&"old.jar".to_string(), &mut v, &mut names, &mut install), Existing::MoveToOld);
    assert_eq!(clean_file(&"counterpart".to_string(), &mut v, &mut names, &mut install), Existing::MoveToOld);
}

#[test]
fn scanning_hashes_and_matches() {
    assert_eq!(hex_lower(&vec![0x0f, 0xa0, 0xff]), "0fa0ff");
    let h = hash_files(vec![("a.jar".to_string(), b"abc".to_vec()), ("b.jar".to_string(), b"abc".to_vec())]);
    assert_eq!(h.mr_hashes, vec!["a9993e364706816aba3e25717850c26c9cd0d89d"]);
    assert_eq!(h.cf_hashes.len(), 1);
    let found = scan_results(&h, &vec![(h.mr_hashes[0].clone(), "AANobbMI".to_string())], &vec![]);
    assert_eq!(found.len(), 1);
    assert_eq!(found[0].1, Some("AANobbMI".to_string()));
    let h = hash_files(vec![("a.jar".to_string(), b"abc".to_vec()), ("b.jar".to_string(), b"abd".to_vec())]);
    assert_eq!(h.cf_hashes.len(), 2);
    assert_ne!(h.cf_hashes[0], h.cf_hashes[1]);
}

#[test]
fn selections() {
    assert_eq!(active_index(0, 0), Active::NoneConfigured);
    assert_eq!(active_index(1, 7), Active::Index(0));
    assert_eq!(active_index(3, 7), Active::PickNeeded);
    assert_eq!(active_index(3, 2), Active::Index(2));
    assert!(check_add_arguments(2, 1).is_err());
    assert!(check_add_arguments(1, 3).is_ok());
    let m = |name: &str| Mod::new(name.to_string(), ModIdentifier::CurseForgeProject(1), vec![], false);
    let sorted = sort_mods(vec![m("beta"), m("Alpha"), m("gamma")]);
    let names: Vec<String> = sorted.into_iter().map(|x| x.name).collect();
    assert_eq!(names, vec!["Alpha", "beta", "gamma"]);
    let _ = Config::empty();
}

#[test]
fn a_github_pin_keeps_its_asset() {
    let asset = |id: i64, name: &str| GitHubAsset { id, name: name.to_string(), browser_download_url: format!("https://gh/{name}"), size: 1 };
    let releases = vec![
        GitHubRelease { name: Some("v2".to_string()), body: None, prerelease: false, assets: vec![asset(3, "mod-2.jar")] },
        GitHubRelease { name: Some("v1".to_string()), body: None, prerelease: true, assets: vec![asset(1, "mod-1.jar"), asset(2, "mod-1-sources.jar")] },
    ];
    let pinned = pin_release_asset(releases, 1);
    assert_eq!(pinned.len(), 2);
    assert!(pinned[0].assets.is_empty());
    assert_eq!(pinned[1].assets.len(), 1);
    let files = from_gh_releases(pinned);
    assert_eq!(files.len(), 1);
    assert_eq!(files[0].1.output, "mod-1.jar");
}
