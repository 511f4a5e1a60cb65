use ferium::util::cli::{get_subcommand, SubCommand};
use ferium::util::ferium_error::{FError, JsonCategory};
use ferium::util::json::{mod_loader_names, picked_version, Config, ModLoaders, Profile};
use ferium::util::launchermeta::{version_manifest_url, Version, VersionType};
use ferium::util::wrappers::{get_latest_mc_versions, get_mods_dir, pick_latest_versions, remove_semver_patch};

#[test]
fn test_remove_semver_patch() -> Result<(), FError> {
    assert_eq!(remove_semver_patch("1.7.10")?, "1.7".to_string());
    assert_eq!(remove_semver_patch("1.14.4")?, "1.14".to_string());
    assert_eq!(remove_semver_patch("1.14")?, "1.14".to_string());

    Ok(())
}

#[test]
fn semver_patch_of_snapshot_is_kept() {
    assert_eq!(remove_semver_patch("22w05a").unwrap(), "22w05a");
    assert_eq!(remove_semver_patch("1.18.1-rc3").unwrap(), "1.18.1-rc3");
}

fn version(id: &str, t: VersionType) -> Version {
    Version {
        id: id.to_string(),
        type_field: t,
        url: String::new(),
        time: String::new(),
        release_time: String::new(),
        sha1: String::new(),
        compliance_level: 0,
    }
}

fn manifest() -> Vec<Version> {
    vec![
        version("22w05a", VersionType::Snapshot),
        version("1.18.1", VersionType::Release),
        version("1.18", VersionType::Release),
        version("1.17.1", VersionType::Release),
        version("1.17", VersionType::Release),
        version("1.16.5", VersionType::Release),
        version("b1.7.3", VersionType::Beta),
        version("1.16.4", VersionType::Release),
    ]
}

#[test]
fn latest_versions_one_per_major() {
    let latest = get_latest_mc_versions(&manifest(), 6).unwrap();
    assert_eq!(latest, vec!["1.18.1", "1.17.1", "1.16.5"]);
}

#[test]
fn latest_versions_stop_at_count() {
    let latest = get_latest_mc_versions(&manifest(), 2).unwrap();
    assert_eq!(latest, vec!["1.18.1", "1.17.1"]);
    assert!(get_latest_mc_versions(&manifest(), 0).unwrap().is_empty());
    assert!(get_latest_mc_versions(&Vec::new(), 5).unwrap().is_empty());
}

#[test]
fn pick_latest_versions_uses_given_majors() {
    let versions = manifest();
    let majors: Vec<String> = vec!["s", "a", "a", "b", "b", "c", "beta", "c"]
        .into_iter()
        .map(String::from)
        .collect();
    assert_eq!(pick_latest_versions(&versions, &majors, 10), vec!["1.18.1", "1.17.1", "1.16.5"]);
    assert_eq!(pick_latest_versions(&versions, &majors, 1), vec!["1.18.1"]);
}

#[test]
fn mods_dir_by_os() {
    assert_eq!(get_mods_dir("linux").unwrap(), vec![".minecraft", "mods"]);
    assert_eq!(
        get_mods_dir("windows").unwrap(),
        vec!["AppData", "Roaming", ".minecraft", "mods"]
    );
    assert_eq!(
        get_mods_dir("macos").unwrap(),
        vec!["Library", "ApplicationSupport", "minecraft", "mods"]
    );
    assert!(matches!(get_mods_dir("haiku"), Err(FError::InvalidDeviceError)));
}

#[test]
fn ferium_error_messages() {
    assert_eq!(
        FError::EmptyConfigFile.message(),
        "Your config file is empty! Run `ferium help` to see how to add mods or repositories"
    );
    assert_eq!(
        FError::OctocrabError("Not Found".to_string()).message(),
        "Error Not Found occured while using the GitHub API"
    );
    assert_eq!(FError::OptionError.message(), "Could not access an expected value");
    assert_eq!(
        FError::RegexError("bad".to_string()).message(),
        "Failed to parse a regular expression due to bad"
    );
    assert_eq!(
        FError::JSONError(JsonCategory::Eof).message(),
        "Unexpected end of file while reading JSON"
    );
    assert_eq!(
        FError::IOError("denied".to_string()).message(),
        "Encountered an input/output error, denied"
    );
    assert_eq!(
        FError::InvalidDeviceError.message(),
        "The device you are currently running on is unsupported by Ferium"
    );
    assert_eq!(FError::FerinthBase62Error.message(), "Invalid request parameter");
    assert_eq!(
        FError::ReqwestError("timeout".to_string()).message(),
        "Failed to send/process an HTTP(S) request due to timeout"
    );
    assert_eq!(FError::Quit { message: "bye".to_string() }.message(), "bye");
}

#[test]
fn subcommands_from_arguments() {
    assert!(matches!(get_subcommand("list", true, None, None), Ok(SubCommand::List(true))));
    assert!(matches!(get_subcommand("upgrade", false, None, None), Ok(SubCommand::Upgrade)));
    match get_subcommand("add", false, Some("sodium".to_string()), None) {
        Ok(SubCommand::Add { mod_id }) => assert_eq!(mod_id, "sodium"),
        _ => panic!("expected add"),
    }
    match get_subcommand("add-repo", false, Some("CaffeineMC".to_string()), Some("sodium".to_string())) {
        Ok(SubCommand::AddRepo { owner, name }) => {
            assert_eq!(owner, "CaffeineMC");
            assert_eq!(name, "sodium");
        }
        _ => panic!("expected add-repo"),
    }
    assert!(matches!(
        get_subcommand("add-repo", false, Some("CaffeineMC".to_string()), None),
        Err(FError::OptionError)
    ));
    assert!(matches!(get_subcommand("add", false, None, None), Err(FError::OptionError)));
    assert!(matches!(get_subcommand("remove", false, None, None), Ok(SubCommand::Remove)));
    assert!(matches!(get_subcommand("config", false, None, None), Ok(SubCommand::Config)));
    assert!(matches!(get_subcommand("create", false, None, None), Ok(SubCommand::Create)));
    assert!(matches!(get_subcommand("switch", false, None, None), Ok(SubCommand::Switch)));
    match get_subcommand("fly", false, None, None) {
        Err(FError::Quit { message }) => assert_eq!(message, "Unknown subcommand"),
        _ => panic!("expected quit"),
    }
}

#[test]
fn setup_choices() {
    assert_eq!(ModLoaders::picked(0), ModLoaders::Fabric);
    assert_eq!(ModLoaders::picked(1), ModLoaders::Forge);
    assert_eq!(ModLoaders::Forge.name(), "Forge");
    assert_eq!(mod_loader_names(), vec!["Fabric", "Forge"]);
    let versions = vec!["1.18.1".to_string(), "1.17.1".to_string()];
    assert_eq!(picked_version(&versions, 1), "1.17.1");

    let mut config = Config::empty();
    assert_eq!(config.active_profile, 0);
    assert!(!config.has_profile_named("Main"));
    config.profiles.push(Profile::from_choices(
        "Main".to_string(),
        "/home/u/.minecraft/mods".to_string(),
        "1.18.1".to_string(),
        ModLoaders::Fabric,
    ));
    assert!(config.has_profile_named("Main"));
    assert!(!config.has_profile_named("main"));
    assert!(config.profiles[0].mod_ids.is_empty() && config.profiles[0].repos.is_empty());
    assert_eq!(
        version_manifest_url(),
        "https://launchermeta.mojang.com/mc/game/version_manifest_v2.json"
    );
}
