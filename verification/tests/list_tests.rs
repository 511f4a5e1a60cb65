use ferium::config::structs::{Mod, ModIdentifier};
use ferium::subcommands::list::{curseforge_md, github_md, modrinth_md, rename_mods, sorted_by_name, total_downloads};

#[test]
fn projects_sorted_by_lowercase_name() {
    let names: Vec<String> = vec!["sodium", "Iris", "appleskin", "Lithium"].into_iter().map(String::from).collect();
    assert_eq!(sorted_by_name(&names), vec![2, 1, 3, 0]);
    assert!(sorted_by_name(&Vec::new()).is_empty());
}

fn m(name: &str, id: ModIdentifier) -> Mod {
    Mod::new(name.to_string(), id, vec![], false)
}

#[test]
fn mods_take_their_project_names() {
    let mut mods = vec![
        m("old sodium", ModIdentifier::ModrinthProject("AANobbMI".to_string())),
        m("old incendium", ModIdentifier::CurseForgeProject(591388)),
    ];
    let projects = vec![
        (ModIdentifier::CurseForgeProject(591388), "Incendium".to_string()),
        (ModIdentifier::ModrinthProject("AANobbMI".to_string()), "Sodium".to_string()),
    ];
    assert!(rename_mods(&mut mods, &projects).is_ok());
    assert_eq!(mods[0].name, "Sodium");
    assert_eq!(mods[1].name, "Incendium");

    let projects = vec![
        (ModIdentifier::CurseForgeProject(591388), "Incendium 2".to_string()),
        (ModIdentifier::CurseForgeProject(1), "Nothing".to_string()),
    ];
    assert_eq!(rename_mods(&mut mods, &projects), Err("Could not find expected mod".to_string()));
    assert_eq!(mods[1].name, "Incendium 2");
}

#[test]
fn renaming_keeps_everything_else() {
    let mut mods = vec![m("old", ModIdentifier::ModrinthProject("AANobbMI".to_string()))];
    mods[0].slug = Some("sodium".to_string());
    mods[0].override_filters = true;
    mods[0].check_game_version = Some(false);
    let projects = vec![(ModIdentifier::ModrinthProject("AANobbMI".to_string()), "Sodium".to_string())];
    assert!(rename_mods(&mut mods, &projects).is_ok());
    assert_eq!(mods[0].name, "Sodium");
    assert_eq!(mods[0].slug, Some("sodium".to_string()));
    assert!(mods[0].override_filters);
    assert_eq!(mods[0].check_game_version, Some(false));
}

#[test]
fn downloads_add_up() {
    assert_eq!(total_downloads(&vec![vec![1, 2], vec![], vec![10]]), 13);
    assert_eq!(total_downloads(&Vec::new()), 0);
}

#[test]
fn curseforge_markdown() {
    let md = curseforge_md(
        " Incendium ",
        "https://www.curseforge.com/minecraft/mc-mods/incendium",
        " Nether overhaul ",
        591388,
        &None,
        &vec![("Stardust Labs".to_string(), "https://www.curseforge.com/members/stardust".to_string())],
        &vec!["World Gen".to_string(), "Biomes".to_string()],
    );
    assert_eq!(
        md,
        "\n**[Incendium](https://www.curseforge.com/minecraft/mc-mods/incendium)**  \n_Nether overhaul_\n\n|             |                 |\n|-------------|-----------------|\n| Source      | CurseForge `591388` |\n| Open Source | No              |\n| Authors     | [Stardust Labs](https://www.curseforge.com/members/stardust)              |\n| Categories  | World Gen, Biomes              |"
    );
}

#[test]
fn modrinth_markdown() {
    let md = modrinth_md(
        "Sodium",
        "AANobbMI",
        "Fast",
        &Some("https://github.com/CaffeineMC/sodium".to_string()),
        &vec![("jellysquid3".to_string(), "TEZXhE2U".to_string())],
        &vec!["optimization".to_string()],
    );
    assert_eq!(
        md,
        "\n**[Sodium](https://modrinth.com/mod/AANobbMI)**  \n_Fast_\n\n|             |               |\n|-------------|---------------|\n| Source      | Modrinth `AANobbMI` |\n| Open Source | [Yes](https://github.com/CaffeineMC/sodium)            |\n| Author      | [jellysquid3](https://modrinth.com/user/TEZXhE2U)            |\n| Categories  | optimization            |"
    );
}

#[test]
fn github_markdown() {
    let md = github_md(
        "sodium",
        "https://github.com/CaffeineMC/sodium",
        &Some(" A rendering engine ".to_string()),
        "CaffeineMC/sodium",
        "CaffeineMC",
        "https://github.com/CaffeineMC",
        &Some(vec!["minecraft".to_string(), "fabric".to_string()]),
    );
    assert_eq!(
        md,
        "\n**[sodium](https://github.com/CaffeineMC/sodium)**  \n_A rendering engine_\n\n|             |             |\n|-------------|-------------|\n| Source      | GitHub `CaffeineMC/sodium` |\n| Open Source | Yes         |\n| Owner       | [CaffeineMC](https://github.com/CaffeineMC)    |\n| Topics | minecraft, fabric |"
    );
    let md = github_md("x", "u", &None, "o/x", "o", "ou", &None);
    assert_eq!(
        md,
        "\n**[x](u)**\n\n|             |             |\n|-------------|-------------|\n| Source      | GitHub `o/x` |\n| Open Source | Yes         |\n| Owner       | [o](ou)    |"
    );
}
