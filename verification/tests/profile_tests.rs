use ferium::config::filters::Filter;
use ferium::config::structs::{Config, Mod, ModIdentifier, ModLoader, Modpack, ModpackIdentifier, Profile};
use ferium::subcommands::modpack;
use ferium::subcommands::profile::{
    add_profile, check_output_directory, configure, check_profile_name, create_mode, default_indices, delete, import_source,
    mod_loader_options, pick_minecraft_versions, pick_mod_loader, profile_named, sort_game_versions, switch,
    CreateMode, Switched,
};
use ferium::subcommands::remove::{mods_to_remove, remove_mods};
use ferium::upgrade::check::{GameVersion, GameVersionType};

fn full_profile(name: &str) -> Profile {
    let mut p = Profile::new(name.to_string(), "/home/user/mods".to_string(), vec!["1.19.2".to_string()], ModLoader::Fabric);
    p.mods.push(Mod::new(
        "Starlight (Fabric)".to_string(),
        ModIdentifier::ModrinthProject("H8CaAYZC".to_string()),
        vec![],
        false,
    ));
    p.mods.push(Mod::new("Incendium".to_string(), ModIdentifier::CurseForgeProject(591388), vec![], false));
    p.mods.push(Mod::new(
        "Sodium".to_string(),
        ModIdentifier::GitHubRepository("CaffeineMC".to_string(), "sodium".to_string()),
        vec![],
        false,
    ));
    p
}

fn config_of(profiles: Vec<Profile>, modpacks: Vec<Modpack>) -> Config {
    Config { active_profile: 0, profiles, active_modpack: 0, modpacks }
}

fn one_profile_full() -> Config {
    config_of(vec![full_profile("Default Modded")], vec![])
}

fn two_profiles_one_empty() -> Config {
    let empty = Profile::new("Profile Two".to_string(), "/home/user/mods".to_string(), vec!["1.19.2".to_string()], ModLoader::Forge);
    config_of(vec![full_profile("Default Modded"), empty], vec![])
}

fn two_modpacks_mdactive() -> Config {
    config_of(
        vec![],
        vec![
            Modpack {
                name: "MR Fabulously Optimised".to_string(),
                output_dir: "/home/user/.minecraft".to_string(),
                install_overrides: true,
                identifier: ModpackIdentifier::ModrinthModpack("1KVo5zza".to_string()),
            },
            Modpack {
                name: "CF Fabulously Optimised".to_string(),
                output_dir: "/home/user/.minecraft".to_string(),
                install_overrides: true,
                identifier: ModpackIdentifier::CurseForgeModpack(396246),
            },
        ],
    )
}

fn strings(v: &[&str]) -> Vec<String> {
    v.iter().map(|s| s.to_string()).collect()
}

#[test]
fn create_profile() {
    assert_eq!(create_mode(true, true, true, true), Ok(CreateMode::Arguments));
    let mut config = config_of(vec![], vec![]);
    assert!(check_profile_name(&config, "Test profile").is_ok());
    let p = Profile::new("Test profile".to_string(), "/home/user/mods".to_string(), strings(&["1.12.2"]), ModLoader::Forge);
    add_profile(&mut config, p, None);
    assert_eq!(config.profiles.len(), 1);
    assert_eq!(config.active_profile, 0);
}

#[test]
fn create_profile_import_mods() {
    let mut config = one_profile_full();
    assert_eq!(create_mode(true, true, true, true), Ok(CreateMode::Arguments));
    let from = import_source(&config, Some("Default Modded".to_string())).unwrap();
    assert_eq!(from, Some(0));
    let p = Profile::new("Test profile".to_string(), "/home/user/mods".to_string(), strings(&["1.12.2"]), ModLoader::Forge);
    add_profile(&mut config, p, from);
    assert_eq!(config.active_profile, 1);
    assert_eq!(config.profiles[1].mods.len(), 3);
    assert_eq!(config.profiles[1].mods[1].name, "Incendium");
}

#[test]
fn create_profile_output_dir_not_absolute() {
    assert!(check_output_directory(false, &Some("mods".to_string()), &vec![]).is_err());
}

#[test]
fn create_profile_missing_args() {
    assert!(create_mode(true, true, false, true).is_err());
}

#[test]
fn create_profile_name_already_exists() {
    let config = config_of(vec![full_profile("Test profile")], vec![]);
    assert_eq!(
        check_profile_name(&config, "Test profile"),
        Err("A profile with that name already exists".to_string())
    );
    assert!(check_profile_name(&config, "test PROFILE").is_err());
}

#[test]
fn import_source_errors() {
    let config = config_of(vec![], vec![]);
    assert_eq!(
        import_source(&config, None),
        Err("There are no profiles configured to import mods from".to_string())
    );
    let config = one_profile_full();
    assert_eq!(import_source(&config, Some("Nope".to_string())), Err("The profile name provided does not exist".to_string()));
    assert_eq!(import_source(&config, None), Ok(None));
}

#[test]
fn remove_fail() {
    let config = one_profile_full();
    let mods = &config.profiles[0].mods;
    assert!(mods_to_remove(mods, &strings(&["starlght", "incendium", "sodium"])).is_err());
    assert!(mods_to_remove(mods, &strings(&["starlight (fabric)", "incendum", "sodium"])).is_err());
    assert_eq!(
        mods_to_remove(mods, &strings(&["starlight (fabric)", "incendium", "sodum"])),
        Err("A mod with ID or name sodum is not present in this profile".to_string())
    );
}

#[test]
fn remove_name() {
    let mut config = one_profile_full();
    let ix = mods_to_remove(&config.profiles[0].mods, &strings(&["starlight (fabric)", "incendium", "sodium"])).unwrap();
    let removed = remove_mods(&mut config.profiles[0], ix);
    assert_eq!(removed.len(), 3);
    assert!(config.profiles[0].mods.is_empty());
}

#[test]
fn remove_id() {
    let mut config = one_profile_full();
    let ix = mods_to_remove(&config.profiles[0].mods, &strings(&["H8CaAYZC", "591388", "caffeinemc/sodium"])).unwrap();
    assert_eq!(ix, vec![0, 1, 2]);
    let removed = remove_mods(&mut config.profiles[0], ix);
    assert_eq!(removed, strings(&["Sodium", "Incendium", "Starlight (Fabric)"]));
    assert!(config.profiles[0].mods.is_empty());
}

#[test]
fn profile_switch() {
    let mut config = two_profiles_one_empty();
    assert_eq!(switch(&mut config, Some("Profile Two".to_string())), Ok(Switched::Done));
    assert_eq!(config.active_profile, 1);
}

#[test]
fn delete_profile() {
    let mut config = two_profiles_one_empty();
    let selection = profile_named(&config.profiles, "Profile Two").unwrap();
    assert!(delete(&mut config, selection, None).is_ok());
    assert_eq!(config.profiles.len(), 1);
    assert_eq!(config.profiles[0].name, "Default Modded");
    assert_eq!(config.active_profile, 0);
}

#[test]
fn modpack_switch() {
    let mut config = two_modpacks_mdactive();
    assert_eq!(modpack::switch(&mut config, Some("CF Fabulously Optimised".to_string())), Ok(Switched::Done));
    assert_eq!(config.active_modpack, 1);
}

#[test]
fn delete_modpack() {
    let mut config = two_modpacks_mdactive();
    let selection = modpack::modpack_to_delete(&config, "CF Fabulously Optimised").unwrap();
    assert_eq!(selection, 1);
    assert!(modpack::delete(&mut config, selection, None).is_ok());
    assert_eq!(config.modpacks.len(), 1);
    assert_eq!(config.modpacks[0].name, "MR Fabulously Optimised");
}

#[test]
fn mod_loader_picker_starts_on_default() {
    assert_eq!(
        mod_loader_options(),
        vec![ModLoader::Fabric, ModLoader::Quilt, ModLoader::NeoForge, ModLoader::Forge]
    );
    assert_eq!(pick_mod_loader(None), 0);
    assert_eq!(pick_mod_loader(Some(ModLoader::NeoForge)), 2);
    assert_eq!(pick_mod_loader(Some(ModLoader::Forge)), 3);
}

fn gv(version: &str, t: GameVersionType, date: i128) -> GameVersion {
    GameVersion { version: version.to_string(), version_type: t, major: false, date }
}

#[test]
fn game_versions_listed_by_type_then_newest() {
    let versions = vec![
        gv("b1.7.3", GameVersionType::Beta, 10),
        gv("1.18", GameVersionType::Release, 100),
        gv("22w05a", GameVersionType::Snapshot, 300),
        gv("1.19", GameVersionType::Release, 200),
        gv("1.19-dup", GameVersionType::Release, 200),
        gv("a1.0", GameVersionType::Alpha, 5),
    ];
    assert_eq!(sort_game_versions(&versions), vec![3, 4, 1, 2, 0, 5]);
}

#[test]
fn picking_minecraft_versions() {
    let listed = strings(&["1.19", "1.18", "1.17"]);
    assert_eq!(default_indices(&listed, &strings(&["1.17", "1.19"])), vec![0, 2]);
    assert_eq!(pick_minecraft_versions(&listed, &vec![2, 0]), strings(&["1.19", "1.17"]));
    assert!(pick_minecraft_versions(&listed, &vec![]).is_empty());
}

#[test]
fn output_directory_checks() {
    let c = check_output_directory(true, &Some("mods".to_string()), &vec![(true, ".DS_Store".to_string()), (false, "x".to_string())]).unwrap();
    assert!(!c.not_called_mods);
    assert!(!c.offer_backup);
    let c = check_output_directory(true, &Some("mymods".to_string()), &vec![(true, "sodium.jar".to_string())]).unwrap();
    assert!(c.not_called_mods);
    assert!(c.offer_backup);
    assert_eq!(
        check_output_directory(false, &None, &vec![]).err(),
        Some("The provided output directory is not absolute, i.e. it is a relative path".to_string())
    );
}

#[test]
fn configure_sets_game_versions() {
    let mut p = Profile::new("P".to_string(), "/m".to_string(), vec!["1.20.1".to_string()], ModLoader::Fabric);
    assert_eq!(configure(&mut p, vec!["1.19.2".to_string()], vec![], None, None), Ok(false));
    assert!(matches!(&p.filters[0], Filter::ModLoaderPrefer(ls) if ls == &vec![ModLoader::Fabric]));
    assert!(matches!(&p.filters[1], Filter::GameVersionStrict(vs) if vs == &vec!["1.19.2".to_string()]));
    assert_eq!(p.name, "P");
    assert_eq!(p.output_dir, "/m");
    assert!(p.mods.is_empty());
    let mut none = Profile::new("Q".to_string(), "/m".to_string(), vec![], ModLoader::Forge);
    none.filters.clear();
    assert_eq!(
        configure(&mut none, vec!["1.19.2".to_string()], vec![], None, None),
        Err("Active profile does not filter by game version".to_string())
    );
}
