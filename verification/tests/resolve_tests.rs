use ferium::config::structs::{Mod, ModIdentifier};
use ferium::resolve::{
    added_project, Action, Checked, Dependency, DependencyLevel, Event, ProjectRef, Relation, Resolver, Target,
};

fn mr(id: &str) -> ProjectRef {
    ProjectRef::Modrinth(id.to_string())
}

fn dep(target: Target, relation: Relation) -> Dependency {
    Dependency { target, relation }
}

fn check_of(action: Action) -> (ProjectRef, bool, bool, String) {
    match action {
        Action::Check { project, optional, ask, parent } => (project, optional, ask, parent),
        _ => panic!("expected a check"),
    }
}

fn modrinth_id(p: &ProjectRef) -> String {
    match p {
        ProjectRef::Modrinth(id) => id.clone(),
        ProjectRef::CurseForge(_) => panic!("expected a Modrinth project"),
    }
}

#[test]
fn modrinth_dependencies_depth_first_on_quilt() {
    let deps = vec![
        dep(Target::Project(mr("P7dR8mSH")), Relation::Required),
        dep(Target::Project(mr("abc")), Relation::Optional),
        dep(Target::Project(mr("embedded")), Relation::Other),
        dep(Target::Version("v1".to_string()), Relation::Required),
    ];
    let mut mods: Vec<Mod> = Vec::new();
    let mut r = Resolver::new(deps, Some(true), Some(false), "Parent".to_string(), None, true, true);

    // The Fabric API is replaced by the Quilt Standard Libraries on Quilt
    let (p, optional, ask, parent) = check_of(r.action());
    assert_eq!(modrinth_id(&p), "qvIfYCYJ");
    assert!(!optional && !ask);
    assert_eq!(parent, "Parent");

    r.handle(
        &mut mods,
        Event::Checked(Checked::Compatible { name: "  QSL ".to_string(),
            deps: vec![dep(Target::Project(mr("dep2")), Relation::Required)],
        }),
    );
    assert_eq!(mods.len(), 1);
    assert_eq!(mods[0].name, "QSL");
    assert!(matches!(&mods[0].identifier, ModIdentifier::ModrinthProject(id) if id == "qvIfYCYJ"));
    assert_eq!(mods[0].check_game_version, None);
    assert_eq!(mods[0].check_mod_loader, Some(false));

    // Its own dependency comes next
    let (p, optional, _, parent) = check_of(r.action());
    assert_eq!(modrinth_id(&p), "dep2");
    assert!(!optional);
    assert_eq!(parent, "Parent");
    r.handle(&mut mods, Event::Checked(Checked::AlreadyAdded));
    assert_eq!(mods.len(), 1);

    // Then the optional one of the first frame: the user is asked
    let (p, optional, ask, _) = check_of(r.action());
    assert_eq!(modrinth_id(&p), "abc");
    assert!(optional && ask);
    r.handle(
        &mut mods,
        Event::Checked(Checked::Compatible { name: "ABC".to_string(), deps: vec![] }),
    );
    match r.action() {
        Action::Confirm { name, parent } => {
            assert_eq!(name, "ABC");
            assert_eq!(parent, "Parent");
        }
        _ => panic!("expected a confirmation"),
    }
    r.handle(&mut mods, Event::Answered(false));
    assert_eq!(mods.len(), 1);

    // The embedded one is passed over; the version's project is looked up
    match r.action() {
        Action::FindProject { version_id } => assert_eq!(version_id, "v1"),
        _ => panic!("expected a version lookup"),
    }
    r.handle(&mut mods, Event::ProjectFound("Ha28R6CL".to_string()));
    let (p, optional, _, _) = check_of(r.action());
    assert_eq!(modrinth_id(&p), "lwVhp9o5");
    assert!(!optional);

    // A required dependency that cannot be added fails everything
    r.handle(&mut mods, Event::Checked(Checked::Failed("not compatible".to_string())));
    match r.action() {
        Action::Failed(m) => assert_eq!(m, "not compatible"),
        _ => panic!("expected failure"),
    }
    r.handle(&mut mods, Event::Answered(true));
    assert!(matches!(r.action(), Action::Failed(_)));
    assert_eq!(mods.len(), 1);
}

#[test]
fn modrinth_flags_swap_for_nested_dependencies() {
    let deps = vec![dep(Target::Project(mr("a")), Relation::Required)];
    let mut mods: Vec<Mod> = Vec::new();
    let mut r = Resolver::new(deps, Some(false), None, "Top".to_string(), Some(DependencyLevel::All), false, true);
    r.handle(
        &mut mods,
        Event::Checked(Checked::Compatible { name: "A".to_string(),
            deps: vec![dep(Target::Project(mr("b")), Relation::Optional)],
        }),
    );
    // optional with all dependencies: checked without asking
    let (_, optional, ask, _) = check_of(r.action());
    assert!(optional && !ask);
    r.handle(
        &mut mods,
        Event::Checked(Checked::Compatible { name: "B".to_string(), deps: vec![] }),
    );
    assert_eq!(mods.len(), 2);
    assert_eq!(mods[0].check_game_version, Some(false));
    assert_eq!(mods[0].check_mod_loader, None);
    // the nested frame has the two flags exchanged
    assert_eq!(mods[1].check_game_version, None);
    assert_eq!(mods[1].check_mod_loader, Some(false));
    assert!(matches!(r.action(), Action::Done));
}

#[test]
fn curseforge_levels() {
    let deps = vec![
        dep(Target::Project(ProjectRef::CurseForge(306612)), Relation::Required),
        dep(Target::Project(ProjectRef::CurseForge(42)), Relation::Optional),
    ];
    let r = Resolver::new(deps, None, None, "P".to_string(), Some(DependencyLevel::NoDependencies), true, false);
    assert!(matches!(r.action(), Action::Done));

    let deps = vec![
        dep(Target::Project(ProjectRef::CurseForge(306612)), Relation::Required),
        dep(Target::Project(ProjectRef::CurseForge(42)), Relation::Optional),
    ];
    let mut mods: Vec<Mod> = Vec::new();
    let mut r = Resolver::new(deps, Some(false), Some(true), "P".to_string(), Some(DependencyLevel::Required), true, false);
    match check_of(r.action()).0 {
        ProjectRef::CurseForge(id) => assert_eq!(id, 634179),
        _ => panic!("expected CurseForge"),
    }
    r.handle(
        &mut mods,
        Event::Checked(Checked::Compatible { name: "QFAPI".to_string(),
            deps: vec![dep(Target::Project(ProjectRef::CurseForge(7)), Relation::Required)],
        }),
    );
    assert!(matches!(&mods[0].identifier, ModIdentifier::CurseForgeProject(634179)));
    r.handle(
        &mut mods,
        Event::Checked(Checked::Compatible { name: "Seven".to_string(), deps: vec![] }),
    );
    // no exchange of flags on CurseForge; Some(true) is kept as None
    assert_eq!(mods[1].check_game_version, Some(false));
    assert_eq!(mods[1].check_mod_loader, None);
    // optional dependencies are passed over at the required level
    assert!(matches!(r.action(), Action::Done));
}

#[test]
fn missing_target_ends_its_frame() {
    let deps = vec![
        dep(Target::Missing, Relation::Required),
        dep(Target::Project(mr("x")), Relation::Required),
    ];
    let r = Resolver::new(deps, None, None, "P".to_string(), None, false, true);
    assert!(matches!(r.action(), Action::Done));
}

#[test]
fn fetch_failure_fails_even_optional() {
    let deps = vec![dep(Target::Project(mr("x")), Relation::Optional)];
    let mut mods: Vec<Mod> = Vec::new();
    let mut r = Resolver::new(deps, None, None, "P".to_string(), None, false, true);
    r.handle(&mut mods, Event::FetchFailed("offline".to_string()));
    match r.action() {
        Action::Failed(m) => assert_eq!(m, "offline"),
        _ => panic!("expected failure"),
    }

    let deps = vec![
        dep(Target::Project(mr("x")), Relation::Optional),
        dep(Target::Project(mr("y")), Relation::Required),
    ];
    let mut r = Resolver::new(deps, None, None, "P".to_string(), None, false, true);
    r.handle(&mut mods, Event::Checked(Checked::Failed("no file".to_string())));
    assert_eq!(modrinth_id(&check_of(r.action()).0), "y");
}

#[test]
fn added_project_trims_and_keeps_only_overrides() {
    let m = added_project("  Sodium\t", ModIdentifier::ModrinthProject("AANobbMI".to_string()), Some(true), Some(false));
    assert_eq!(m.name, "Sodium");
    assert_eq!(m.check_game_version, None);
    assert_eq!(m.check_mod_loader, Some(false));
    assert!(m.slug.is_none() && m.filters.is_empty() && !m.override_filters);
}
