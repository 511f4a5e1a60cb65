use ferium::iter_ext::{display, IterExt, IterExtPositions};
use ferium::labrinth::{download_url, mod_path, request_url, versions_path, Version, VersionFile};
use ferium::modpack::modrinth::{DependencyID, Game};
use ferium::octorok::{jar_asset, releases_path, repository_path};
use ferium::subcommands::export::{
    check_overrides_mods, export_metadata, hashed_asset_entry, included_mods_parts, modpack_file_name,
    version_file_entry,
};
use ferium::subcommands::modpack::{denied_download_url, modpack_downloads, modpack_file_folder};
use ferium::config::filters::Filter;
use ferium::config::structs::{Mod, ModIdentifier, ModLoader};
use ferium::scan::{hash_files, jar_files};
use ferium::subcommands::remove::distinct_indices;
use ferium::subcommands::upgrade::{all_up_to_date, download_to_output_dir, has_extension, mod_filters, upgrade_result};
use ferium::upgrade::{CurseForgeFile, DownloadData, ReleaseType};

#[test]
fn labrinth_addresses() {
    assert_eq!(request_url("/mod/sodium", true), "https://api.modrinth.com/api/v1/mod/sodium");
    assert_eq!(request_url("https://cdn.modrinth.com/x.jar", false), "https://cdn.modrinth.com/x.jar");
    assert_eq!(mod_path("sodium"), "/mod/sodium");
    assert_eq!(versions_path("sodium"), "/mod/sodium/version");
    let v = Version {
        id: "v".to_string(),
        mod_id: "m".to_string(),
        author_id: "a".to_string(),
        featured: false,
        name: "n".to_string(),
        version_number: "1".to_string(),
        changelog: None,
        changelog_url: None,
        date_published: String::new(),
        downloads: 0,
        version_type: "release".to_string(),
        files: vec![VersionFile { hashes: vec![], url: "https://cdn/x.jar".to_string(), filename: "x.jar".to_string() }],
        dependencies: vec![],
        game_versions: vec![],
        loaders: vec![],
    };
    assert_eq!(download_url(&v), "https://cdn/x.jar");
}

#[test]
fn github_addresses_and_jar_asset() {
    assert_eq!(ferium::octorok::request_url("/repos/a/b", true), "http://api.github.com/repos/a/b");
    assert_eq!(repository_path("CaffeineMC", "sodium"), "/repos/CaffeineMC/sodium");
    assert_eq!(releases_path("CaffeineMC/sodium"), "/repos/CaffeineMC/sodium/releases");
    let types: Vec<String> = vec!["application/java-archive", "text/plain", "application/java-archive", "application/zip"]
        .into_iter()
        .map(String::from)
        .collect();
    assert_eq!(jar_asset(&types), Some(2));
    assert_eq!(jar_asset(&vec!["text/plain".to_string()]), None);
}

#[test]
fn iterator_extensions() {
    let v = vec!["a".to_string(), "b".to_string(), "c".to_string()];
    assert_eq!(display(&v, ", "), "a, b, c");
    assert_eq!(display(&vec![1i32, -2, 30], "/"), "1/-2/30");
    assert_eq!(display(&Vec::<String>::new(), ", "), "");
    assert_eq!(v.clone().collect_vec(), v);
    let indexed = vec![(0usize, 5i32), (1, 8), (2, 11), (3, 12)];
    assert_eq!(indexed.positions(|x| x % 2 == 0), vec![1, 3]);
}

#[test]
fn export_pieces() {
    assert_eq!(modpack_file_name("Default", "1.0.0"), "Default-1.0.0.mrpack");
    assert!(check_overrides_mods(&vec![".gitkeep".to_string(), ".DS_Store".to_string()]).is_ok());
    assert!(check_overrides_mods(&vec![".gitkeep".to_string(), "sodium.jar".to_string()]).is_err());
    let e = version_file_entry("sodium.jar", "aa".to_string(), "bb".to_string(), "https://cdn/sodium.jar".to_string(), 12);
    assert_eq!(e.path, "mods/sodium.jar");
    assert_eq!(e.hashes.sha512, "aa");
    assert_eq!(e.downloads, vec!["https://cdn/sodium.jar"]);
    let e = hashed_asset_entry("a.jar", "https://github.com/a.jar", &b"abc".to_vec(), 3);
    assert_eq!(e.hashes.sha1, "a9993e364706816aba3e25717850c26c9cd0d89d");
    assert_eq!(
        e.hashes.sha512,
        "ddaf35a193617abacc417349ae20413112e6fa4e89a97ea20a9eeee64b55d39a2192992a274fc1a836ba3c23a3feebbd454d4423643ce80e2a9ac94fa54ca49f"
    );
    assert_eq!(e.file_size, 3);
    let m = export_metadata("Default", "1.19.2", "1.0".to_string(), None, vec![], "0.17.0".to_string());
    assert_eq!(m.format_version, 1);
    assert_eq!(m.game, Game::Minecraft);
    assert_eq!(m.dependencies[0].0, DependencyID::Minecraft);
    assert_eq!(m.dependencies[0].1, "1.19.2");
    assert_eq!(m.dependencies[1].0, DependencyID::QuiltLoader);
    assert_eq!(m.dependencies[1].1, "0.17.0");
    assert_eq!(included_mods_parts("Default"), vec![".config", "ferium", ".tmp", "export", "Default"]);
}

fn cf_file(id: i32, name: &str, url: Option<&str>) -> CurseForgeFile {
    CurseForgeFile {
        id,
        mod_id: id * 10,
        display_name: name.to_string(),
        file_name: name.to_string(),
        release_type: ReleaseType::Release,
        file_length: 100,
        download_url: url.map(String::from),
        game_versions: vec![],
        dependencies: vec![],
    }
}

#[test]
fn modpack_files_go_to_mods() {
    assert_eq!(modpack_file_folder("pack.zip"), "mods");
    assert_eq!(modpack_file_folder("sodium.jar"), "mods");
    let (downloads, denied) = modpack_downloads(vec![
        cf_file(1, "a.jar", Some("https://edge/a.jar")),
        cf_file(2, "b.zip", None),
        cf_file(3, "c.zip", Some("https://edge/c.zip")),
    ]);
    assert_eq!(downloads.len(), 2);
    assert_eq!(downloads[0].download_url, "https://edge/a.jar");
    assert_eq!(downloads[0].output, "mods/a.jar");
    assert_eq!(downloads[1].output, "mods/c.zip");
    assert_eq!(denied.len(), 1);
    assert_eq!((denied[0].0, denied[0].1), (20, 2));
    assert_eq!(
        denied_download_url("https://www.curseforge.com/minecraft/mc-mods/x", 2),
        "https://www.curseforge.com/minecraft/mc-mods/x/download/2"
    );
}

#[test]
fn jar_extension_and_upgrade_end() {
    assert!(has_extension("a.jar", "jar"));
    assert!(has_extension("a.JAR", "jar"));
    assert!(!has_extension("a.jar.txt", "jar"));
    assert!(!has_extension(".jar", "jar"));
    let mut to_download = vec![DownloadData {
        download_url: "u".to_string(),
        output: "sub/dir/file.jar".to_string(),
        length: 1,
        dependencies: vec![],
        conflicts: vec![],
    }];
    download_to_output_dir(&mut to_download);
    assert_eq!(to_download[0].output, "file.jar");
    assert!(all_up_to_date(&vec![], &vec![]));
    assert!(!all_up_to_date(&to_download, &vec![]));
    assert_eq!(upgrade_result(false), Ok(()));
    assert_eq!(
        upgrade_result(true),
        Err("\nCould not get the latest compatible version of some mods".to_string())
    );
}

#[test]
fn scan_looks_at_jar_files_only() {
    let files = vec![
        ("a.jar".to_string(), vec![1u8]),
        ("b.JAR".to_string(), vec![2u8]),
        ("notes.txt".to_string(), vec![3u8]),
        ("c.jar".to_string(), vec![4u8]),
    ];
    let kept = jar_files(files);
    let names: Vec<&str> = kept.iter().map(|f| f.0.as_str()).collect();
    assert_eq!(names, vec!["a.jar", "b.JAR", "c.jar"]);
}

#[test]
fn file_names_of_outputs() {
    let d = |output: &str| DownloadData {
        download_url: "u".to_string(),
        output: output.to_string(),
        length: 1,
        dependencies: vec![],
        conflicts: vec![],
    };
    assert_eq!(d("mods/sub/Sodium-0.5.jar").filename(), "Sodium-0.5.jar");
    assert_eq!(d("Sodium-0.5.jar").filename(), "Sodium-0.5.jar");
    assert_eq!(d("mods/x.jar").filename(), "x.jar");
    assert!(!d("a/b/").filename().contains('/'));
}

#[test]
fn mod_filters_override_or_extend() {
    let profile = vec![Filter::GameVersionStrict(vec!["1.20.1".to_string()])];
    let mut m = Mod::new("m".to_string(), ModIdentifier::CurseForgeProject(1), vec![Filter::ModLoaderAny(vec![ModLoader::Fabric])], false);
    let f = mod_filters(&profile, &m);
    assert_eq!(f.len(), 2);
    assert!(matches!(&f[0], Filter::GameVersionStrict(_)));
    assert!(matches!(&f[1], Filter::ModLoaderAny(_)));
    m.override_filters = true;
    let f = mod_filters(&profile, &m);
    assert_eq!(f.len(), 1);
    assert!(matches!(&f[0], Filter::ModLoaderAny(_)));
}

#[test]
fn picked_indices_each_once_and_in_range() {
    assert_eq!(distinct_indices(&vec![2, 0, 2, 7, 1, 0], 3), vec![2, 0, 1]);
    assert!(distinct_indices(&vec![], 3).is_empty());
}

#[test]
fn curseforge_fingerprint_skips_blanks() {
    let h = hash_files(vec![("a.jar".to_string(), b"ab".to_vec()), ("b.jar".to_string(), b"a b\r\n\t".to_vec())]);
    assert_eq!(h.cf_hashes.len(), 1);
    let h = hash_files(vec![("a.jar".to_string(), b"ab".to_vec()), ("b.jar".to_string(), b"ba".to_vec())]);
    assert_eq!(h.cf_hashes.len(), 2);
}
