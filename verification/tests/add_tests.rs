use ferium::add::{add, parse_id, CurseForgeProject, Error, Fetched, FileIndex, ModrinthProject, Repository};
use ferium::config::structs::{Mod, ModIdentifier, ModLoader, Profile};
use ferium::summary::display_successes_failures;

#[test]
fn parse_id_curseforge_number() {
    match parse_id("513688".to_string()) {
        Ok(ModIdentifier::CurseForgeProject(n)) => assert_eq!(n, 513688),
        other => panic!("unexpected {:?}", other),
    }
}

#[test]
fn parse_id_modrinth_slug() {
    match parse_id("sodium".to_string()) {
        Ok(ModIdentifier::ModrinthProject(s)) => assert_eq!(s, "sodium"),
        other => panic!("unexpected {:?}", other),
    }
}

#[test]
fn parse_id_github_repository() {
    match parse_id("CaffeineMC/sodium".to_string()) {
        Ok(ModIdentifier::GitHubRepository(o, r)) => {
            assert_eq!(o, "CaffeineMC");
            assert_eq!(r, "sodium");
        }
        other => panic!("unexpected {:?}", other),
    }
}

#[test]
fn parse_id_names_with_dashes() {
    match parse_id("CaffeineMC/sodium-fabric".to_string()) {
        Ok(ModIdentifier::GitHubRepository(o, r)) => {
            assert_eq!(o, "CaffeineMC");
            assert_eq!(r, "sodium-fabric");
        }
        other => panic!("unexpected {:?}", other),
    }
    match parse_id("gorilla-devs/ferium".to_string()) {
        Ok(ModIdentifier::GitHubRepository(o, r)) => {
            assert_eq!(o, "gorilla-devs");
            assert_eq!(r, "ferium");
        }
        other => panic!("unexpected {:?}", other),
    }
    match parse_id("fabric-api".to_string()) {
        Ok(ModIdentifier::ModrinthProject(s)) => assert_eq!(s, "fabric-api"),
        other => panic!("unexpected {:?}", other),
    }
    match parse_id("a-b-c".to_string()) {
        Ok(ModIdentifier::ModrinthProject(s)) => assert_eq!(s, "a-b-c"),
        other => panic!("unexpected {:?}", other),
    }
    match parse_id("5-x".to_string()) {
        Ok(ModIdentifier::ModrinthProject(s)) => assert_eq!(s, "5-x"),
        other => panic!("unexpected {:?}", other),
    }
}

#[test]
fn parse_id_pinned() {
    match parse_id("513688-4000000".to_string()) {
        Ok(ModIdentifier::PinnedCurseForgeProject(n, p)) => {
            assert_eq!(n, 513688);
            assert_eq!(p, 4000000);
        }
        other => panic!("unexpected {:?}", other),
    }
    match parse_id("sodium-YL57xq9U".to_string()) {
        Ok(ModIdentifier::PinnedModrinthProject(s, p)) => {
            assert_eq!(s, "sodium");
            assert_eq!(p, "YL57xq9U");
        }
        other => panic!("unexpected {:?}", other),
    }
    match parse_id("CaffeineMC/sodium-fabric-123".to_string()) {
        Ok(ModIdentifier::PinnedGitHubRepository((o, r), p)) => {
            assert_eq!(o, "CaffeineMC");
            assert_eq!(r, "sodium-fabric");
            assert_eq!(p, 123);
        }
        other => panic!("unexpected {:?}", other),
    }
}

#[test]
fn parse_id_every_text_reads() {
    assert!(parse_id(String::new()).is_ok());
    assert!(matches!(parse_id("-5".to_string()), Ok(ModIdentifier::CurseForgeProject(-5))));
    assert!(!matches!(parse_id("x".to_string()), Err(Error::InvalidIdentifier)));
}

fn default_modded() -> Profile {
    let mut p = Profile::new("Default Modded".to_string(), "/home/user/mods".to_string(), vec!["1.19.2".to_string()], ModLoader::Fabric);
    p.mods.push(Mod::new("Starlight (Fabric)".to_string(), ModIdentifier::ModrinthProject("H8CaAYZC".to_string()), vec![], false));
    p.mods.push(Mod::new("Incendium".to_string(), ModIdentifier::CurseForgeProject(591388), vec![], false));
    p.mods.push(Mod::new(
        "Sodium".to_string(),
        ModIdentifier::GitHubRepository("CaffeineMC".to_string(), "sodium".to_string()),
        vec![],
        false,
    ));
    p
}

fn answers() -> Fetched {
    Fetched {
        cf_projects: vec![CurseForgeProject {
            id: 591388,
            name: "Incendium".to_string(),
            slug: "incendium".to_string(),
            allow_mod_distribution: Some(true),
            website_url: "https://www.curseforge.com/minecraft/mc-mods/incendium".to_string(),
            latest_files_indexes: vec![FileIndex { game_version: "1.19.2".to_string(), mod_loader: Some("Fabric".to_string()) }],
        }],
        cf_files: vec![],
        mr_projects: vec![ModrinthProject {
            id: "H8CaAYZC".to_string(),
            slug: "starlight".to_string(),
            title: "Starlight (Fabric)".to_string(),
            is_mod: true,
            versions: vec!["v1".to_string()],
            game_versions: vec!["1.19.2".to_string()],
            loaders: vec!["fabric".to_string()],
        }],
        gh_repos: vec![Repository { owner: "CaffeineMC".to_string(), name: "sodium".to_string(), releases: vec![] }],
        gh_errors: vec![],
    }
}

#[test]
fn already_added() {
    for id in ["StArLiGhT", "591388", "cAfFeInEmC/SoDiUm"] {
        let mut profile = default_modded();
        let ids = vec![parse_id(id.to_string()).unwrap()];
        let (added, errors) = add(&mut profile, ids, true, false, vec![], answers(), &Ok(vec![]));
        assert!(added.is_empty());
        assert_eq!(errors.len(), 1);
        assert!(matches!(errors[0].1, Error::AlreadyAdded));
        assert_eq!(profile.mods.len(), 3);
        let names: Vec<String> = added.iter().map(|a| a.0.clone()).collect();
        assert!(!display_successes_failures(&names, errors).exit_error);
    }
}
