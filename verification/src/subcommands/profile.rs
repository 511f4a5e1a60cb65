//! `ferium profile`: creating, configuring, switching and deleting profiles.
use crate::add::mod_views;
use crate::config::filters::{
    filter_views, first_game_version_filter, first_mod_loader_filter, with_game_versions,
    with_mod_loaders, FilterView, ProfileParameters,
};
use crate::config::structs::{Config, Mod, ModLoader, Profile};
use crate::text::{copy_string, eq_ignore_ascii_case, eq_ignore_ascii_case_spec, owned, str_eq, views};
use crate::upgrade::check::{GameVersion, GameVersionType};
use vstd::prelude::*;

verus! {

/// The index of the first of `names` that equals `name`, ignoring ASCII case.
pub open spec fn first_named(names: Seq<Seq<char>>, name: Seq<char>) -> Option<int> {
    if exists|i: int| 0 <= i < names.len() && eq_ignore_ascii_case_spec(names[i], name) {
        Some(
            choose|i: int|
                0 <= i < names.len() && eq_ignore_ascii_case_spec(names[i], name) && forall|j: int|
                    0 <= j < i ==> !eq_ignore_ascii_case_spec(names[j], name),
        )
    } else {
        None
    }
}

/// The index of the first of `names` that is `name` exactly.
pub open spec fn first_exactly(names: Seq<Seq<char>>, name: Seq<char>) -> Option<int> {
    if exists|i: int| 0 <= i < names.len() && names[i] == name {
        Some(
            choose|i: int|
                0 <= i < names.len() && names[i] == name && forall|j: int| 0 <= j < i ==> names[j] != name,
        )
    } else {
        None
    }
}

/// The names of the profiles.
pub open spec fn profile_names(ps: Seq<Profile>) -> Seq<Seq<char>> {
    ps.map_values(|p: Profile| p.name@)
}

/// The index of the first profile named `name`, ignoring ASCII case.
pub fn profile_named(profiles: &Vec<Profile>, name: &str) -> (r: Option<usize>)
    ensures
        r matches Some(i) ==> i < profiles.len() && first_named(profile_names(profiles@), name@) == Some(i as int),
        r is None ==> first_named(profile_names(profiles@), name@) is None,
{
    let ghost names = profile_names(profiles@);
    let mut i: usize = 0;
    while i < profiles.len()
        invariant
            i <= profiles.len(),
            names == profile_names(profiles@),
            forall|j: int| 0 <= j < i ==> !eq_ignore_ascii_case_spec(names[j], name@),
        decreases profiles.len() - i,
    {
        assert(names[i as int] == profiles@[i as int].name@);
        if eq_ignore_ascii_case(profiles[i].name.as_str(), name) {
            assert forall|k: int|
                0 <= k < names.len() && eq_ignore_ascii_case_spec(names[k], name@) && (forall|j: int|
                    0 <= j < k ==> !eq_ignore_ascii_case_spec(names[j], name@)) implies k == i by {
                if k > i {
                    assert(!eq_ignore_ascii_case_spec(names[i as int], name@));
                }
            }
            return Some(i);
        }
        i = i + 1;
    }
    None
}

/// The index of the first profile named exactly `name`.
pub fn profile_named_exactly(profiles: &Vec<Profile>, name: &str) -> (r: Option<usize>)
    ensures
        r matches Some(i) ==> i < profiles.len() && first_exactly(profile_names(profiles@), name@) == Some(i as int),
        r is None ==> first_exactly(profile_names(profiles@), name@) is None,
{
    let ghost names = profile_names(profiles@);
    let mut i: usize = 0;
    while i < profiles.len()
        invariant
            i <= profiles.len(),
            names == profile_names(profiles@),
            forall|j: int| 0 <= j < i ==> names[j] != name@,
        decreases profiles.len() - i,
    {
        assert(names[i as int] == profiles@[i as int].name@);
        if str_eq(profiles[i].name.as_str(), name) {
            assert forall|k: int|
                0 <= k < names.len() && names[k] == name@ && (forall|j: int| 0 <= j < k ==> names[j] != name@) implies k == i by {
                if k > i {
                    assert(names[i as int] != name@);
                }
            }
            return Some(i);
        }
        i = i + 1;
    }
    None
}

/// What is left to do after switching or deleting.
#[derive(Debug, PartialEq, Eq, Structural)]
pub enum Switched {
    /// The active profile (or modpack) is set
    Done,
    /// The user must pick the one to switch to
    PickNeeded,
}

/// Switches to the profile named `profile_name` (ignoring ASCII case); with no
/// name given, the user must pick one. There is nothing to switch between
/// with one profile or none.
pub fn switch(config: &mut Config, profile_name: Option<String>) -> (r: Result<Switched, String>)
    ensures
        final(config).profiles == old(config).profiles,
        final(config).modpacks == old(config).modpacks,
        final(config).active_modpack == old(config).active_modpack,
        old(config).profiles.len() <= 1 ==> (r matches Err(m) && m@ == "There is only 1 profile in your config"@
            && final(config).active_profile == old(config).active_profile),
        old(config).profiles.len() > 1 ==> match profile_name {
            Some(n) => match first_named(profile_names(old(config).profiles@), n@) {
                Some(i) => r == Ok::<Switched, String>(Switched::Done) && final(config).active_profile == i,
                None => r matches Err(m) && m@ == "The profile provided does not exist"@
                    && final(config).active_profile == old(config).active_profile,
            },
            None => r == Ok::<Switched, String>(Switched::PickNeeded) && final(config).active_profile
                == old(config).active_profile,
        },
{
    if config.profiles.len() <= 1 {
        return Err(owned("There is only 1 profile in your config"));
    }
    match profile_name {
        Some(n) => match profile_named(&config.profiles, n.as_str()) {
            Some(i) => {
                config.active_profile = i;
                Ok(Switched::Done)
            },
            None => Err(owned("The profile provided does not exist")),
        },
        None => Ok(Switched::PickNeeded),
    }
}

/// Where the active profile goes when the profile at `removed` is deleted
/// (`None`: it was that one, and another must be chosen).
pub open spec fn active_after_removal(active: nat, removed: nat) -> Option<nat> {
    if active == removed {
        None
    } else if active > removed {
        Some((active - 1) as nat)
    } else {
        Some(active)
    }
}

/// Deletes the profile at `selection`. Where it was the active one, the profile
/// named `switch_to` becomes active (or the user must pick) if more than one
/// is left, else the first; where the active one came after it, its index
/// moves down by one.
pub fn delete(config: &mut Config, selection: usize, switch_to: Option<String>) -> (r: Result<Switched, String>)
    requires
        selection < old(config).profiles.len(),
    ensures
        final(config).profiles@ == old(config).profiles@.remove(selection as int),
        final(config).modpacks == old(config).modpacks,
        final(config).active_modpack == old(config).active_modpack,
        match active_after_removal(old(config).active_profile as nat, selection as nat) {
            Some(a) => r == Ok::<Switched, String>(Switched::Done) && final(config).active_profile == a,
            None => if old(config).profiles.len() - 1 > 1 {
                match switch_to {
                    Some(n) => match first_named(profile_names(final(config).profiles@), n@) {
                        Some(i) => r == Ok::<Switched, String>(Switched::Done) && final(config).active_profile == i,
                        None => r matches Err(m) && m@ == "The profile provided does not exist"@,
                    },
                    None => r == Ok::<Switched, String>(Switched::PickNeeded),
                }
            } else {
                r == Ok::<Switched, String>(Switched::Done) && final(config).active_profile == 0
            },
        },
{
    config.profiles.remove(selection);
    if config.active_profile == selection {
        if config.profiles.len() > 1 {
            switch(config, switch_to)
        } else {
            config.active_profile = 0;
            Ok(Switched::Done)
        }
    } else {
        if config.active_profile > selection {
            config.active_profile = config.active_profile - 1;
        }
        Ok(Switched::Done)
    }
}

/// Deleting a profile other than the active one keeps the same profile active.
pub proof fn lemma_delete_keeps_active(profiles: Seq<Profile>, active: nat, removed: nat)
    requires
        active < profiles.len(),
        removed < profiles.len(),
        active != removed,
    ensures
        active_after_removal(active, removed) matches Some(a) && a < profiles.remove(removed as int).len()
            && profiles.remove(removed as int)[a as int] == profiles[active as int],
{
}

/// An error where a profile of that name (ignoring ASCII case) exists already.
pub fn check_profile_name(config: &Config, name: &str) -> (r: Result<(), String>)
    ensures
        r is Ok <==> first_named(profile_names(config.profiles@), name@) is None,
        r matches Err(m) ==> m@ == "A profile with that name already exists"@,
{
    match profile_named(&config.profiles, name) {
        Some(_) => Err(owned("A profile with that name already exists")),
        None => Ok(()),
    }
}

/// How `ferium profile create` gets its settings.
#[derive(Debug, PartialEq, Eq, Structural)]
pub enum CreateMode {
    /// From the arguments given
    Arguments,
    /// By asking the user
    Interactive,
}

/// Either the name, game versions and mod loader are all given (the output
/// directory may be), or no setting is given at all.
pub fn create_mode(has_game_version: bool, has_mod_loader: bool, has_name: bool, has_output_dir: bool) -> (r: Result<CreateMode, String>)
    ensures
        has_game_version && has_mod_loader && has_name ==> r == Ok::<CreateMode, String>(CreateMode::Arguments),
        !has_game_version && !has_mod_loader && !has_name && !has_output_dir ==> r == Ok::<CreateMode, String>(CreateMode::Interactive),
        !(has_game_version && has_mod_loader && has_name) && (has_game_version || has_mod_loader || has_name || has_output_dir)
            ==> (r matches Err(m) && m@ == "Provide at least the name, game version, and mod loader options to create a profile"@),
{
    if has_game_version && has_mod_loader && has_name {
        Ok(CreateMode::Arguments)
    } else if !has_game_version && !has_mod_loader && !has_name && !has_output_dir {
        Ok(CreateMode::Interactive)
    } else {
        Err(owned("Provide at least the name, game version, and mod loader options to create a profile"))
    }
}

/// The profile whose mods a new profile imports: the one named `from`
/// exactly, or one the user must pick (`None`).
pub fn import_source(config: &Config, from: Option<String>) -> (r: Result<Option<usize>, String>)
    ensures
        config.profiles.len() == 0 ==> (r matches Err(m) && m@ == "There are no profiles configured to import mods from"@),
        config.profiles.len() > 0 ==> match from {
            Some(n) => match first_exactly(profile_names(config.profiles@), n@) {
                Some(i) => r == Ok::<Option<usize>, String>(Some(i as usize)),
                None => r matches Err(m) && m@ == "The profile name provided does not exist"@,
            },
            None => r == Ok::<Option<usize>, String>(None),
        },
        r matches Ok(Some(i)) ==> i < config.profiles.len(),
{
    if config.profiles.len() == 0 {
        return Err(owned("There are no profiles configured to import mods from"));
    }
    match from {
        Some(n) => match profile_named_exactly(&config.profiles, n.as_str()) {
            Some(i) => Ok(Some(i)),
            None => Err(owned("The profile name provided does not exist")),
        },
        None => Ok(None),
    }
}

/// Adds a new profile, with the mods of the profile at `import_from` where
/// given, and makes it the active one.
pub fn add_profile(config: &mut Config, profile: Profile, import_from: Option<usize>)
    requires
        import_from matches Some(i) ==> i < old(config).profiles.len(),
    ensures
        final(config).profiles@.len() == old(config).profiles@.len() + 1,
        final(config).profiles@.drop_last() == old(config).profiles@,
        final(config).active_profile == old(config).profiles@.len(),
        final(config).profiles@.last().name == profile.name,
        final(config).profiles@.last().output_dir == profile.output_dir,
        final(config).profiles@.last().filters == profile.filters,
        mod_views(final(config).profiles@.last().mods@) == match import_from {
            Some(i) => mod_views(old(config).profiles@[i as int].mods@),
            None => mod_views(profile.mods@),
        },
        final(config).modpacks == old(config).modpacks,
        final(config).active_modpack == old(config).active_modpack,
{
    let mut profile = profile;
    if let Some(i) = import_from {
        let mut mods: Vec<Mod> = Vec::new();
        let source = &config.profiles[i].mods;
        let mut k: usize = 0;
        while k < source.len()
            invariant
                k <= source.len(),
                mod_views(mods@) == mod_views(source@.take(k as int)),
            decreases source.len() - k,
        {
            let ghost before = mod_views(mods@);
            mods.push(source[k].duplicate());
            assert(source@.take(k + 1) =~= source@.take(k as int).push(source@[k as int]));
            assert(mod_views(mods@) =~= before.push(source@[k as int]@));
            assert(mod_views(mods@) =~= mod_views(source@.take(k + 1)));
            k = k + 1;
        }
        assert(source@.take(source.len() as int) =~= source@);
        profile.mods = mods;
    }
    config.profiles.push(profile);
    config.active_profile = config.profiles.len() - 1;
    assert(config.profiles@.drop_last() =~= old(config).profiles@);
}

/// The filters after `configure` sets the game versions `gv` (where given)
/// and then the mod loaders `ml` (where given).
pub open spec fn configured_filters(fv: Seq<FilterView>, gv: Seq<Seq<char>>, ml: Seq<ModLoader>) -> Seq<FilterView> {
    let fv1 = if gv.len() > 0 {
        with_game_versions(fv, gv)
    } else {
        fv
    };
    if ml.len() > 0 {
        with_mod_loaders(fv1, ml)
    } else {
        fv1
    }
}

/// Sets the settings given as arguments: game versions and mod loaders
/// replace those of the profile's first filters on them (an error where it
/// has none: the game versions are looked at first), and the name and output
/// directory are set. Returns whether no setting was given, so that the user
/// is to be asked instead. Where the game versions cannot be set, every field
/// of the profile is left as it was.
pub fn configure(
    profile: &mut Profile,
    game_versions: Vec<String>,
    mod_loaders: Vec<ModLoader>,
    name: Option<String>,
    output_dir: Option<String>,
) -> (r: Result<bool, String>)
    ensures
        ({
            let fv0 = filter_views(old(profile).filters@);
            let gv = views(game_versions@);
            let gv_missing = gv.len() > 0 && first_game_version_filter(fv0) is None;
            let fv1 = if gv.len() > 0 { with_game_versions(fv0, gv) } else { fv0 };
            let ml_missing = mod_loaders@.len() > 0 && first_mod_loader_filter(fv1) is None;
            &&& gv_missing ==> (r matches Err(m) && m@ == "Active profile does not filter by game version"@
                && filter_views(final(profile).filters@) == fv0)
            &&& !gv_missing && ml_missing ==> (r matches Err(m) && m@ == "Active profile does not filter mod loader"@
                && filter_views(final(profile).filters@) == fv1)
            &&& r is Ok <==> !gv_missing && !ml_missing
            &&& r is Ok ==> filter_views(final(profile).filters@) == configured_filters(
                fv0,
                gv,
                mod_loaders@,
            )
            &&& r is Ok ==> r->Ok_0 == (gv.len() == 0 && mod_loaders@.len() == 0 && name is None && output_dir is None)
        }),
        r is Ok ==> final(profile).name == (match name {
            Some(n) => n,
            None => old(profile).name,
        }),
        r is Ok ==> final(profile).output_dir == (match output_dir {
            Some(d) => d,
            None => old(profile).output_dir,
        }),
        r is Err ==> final(profile).name == old(profile).name && final(profile).output_dir == old(profile).output_dir,
        final(profile).mods == old(profile).mods,
        final(profile).game_version == old(profile).game_version,
        final(profile).mod_loader == old(profile).mod_loader,
        views(game_versions@).len() > 0 && first_game_version_filter(filter_views(old(profile).filters@)) is None
            ==> final(profile).filters@ == old(profile).filters@,
{
    let n_versions = game_versions.len();
    let n_loaders = mod_loaders.len();
    if n_versions > 0 {
        if !profile.filters.set_game_versions(game_versions) {
            return Err(owned("Active profile does not filter by game version"));
        }
    }
    if n_loaders > 0 {
        if !profile.filters.set_mod_loaders(mod_loaders) {
            return Err(owned("Active profile does not filter mod loader"));
        }
    }
    let interactive = n_versions == 0 && n_loaders == 0 && name.is_none() && output_dir.is_none();
    if let Some(n) = name {
        profile.name = n;
    }
    if let Some(d) = output_dir {
        profile.output_dir = d;
    }
    Ok(interactive)
}

/// The mod loaders offered, in the order they are listed.
pub open spec fn loader_options() -> Seq<ModLoader> {
    seq![ModLoader::Fabric, ModLoader::Quilt, ModLoader::NeoForge, ModLoader::Forge]
}

/// The mod loaders offered when picking one, in the order they are listed.
pub fn mod_loader_options() -> (r: Vec<ModLoader>)
    ensures
        r@ == loader_options(),
{
    let mut v: Vec<ModLoader> = Vec::new();
    v.push(ModLoader::Fabric);
    v.push(ModLoader::Quilt);
    v.push(ModLoader::NeoForge);
    v.push(ModLoader::Forge);
    assert(v@ =~= loader_options());
    v
}

/// Where the cursor starts when picking a mod loader: on the default, which
/// every loader is among the options, or on the first option.
pub fn pick_mod_loader(default: Option<ModLoader>) -> (r: usize)
    ensures
        r < loader_options().len(),
        default matches Some(d) ==> loader_options()[r as int] == d,
        default is None ==> r == 0,
{
    match default {
        Some(ModLoader::Fabric) => 0,
        Some(ModLoader::Quilt) => 1,
        Some(ModLoader::NeoForge) => 2,
        Some(ModLoader::Forge) => 3,
        None => 0,
    }
}

/// The rank of a type of game version in the listing: releases, then
/// snapshots, betas and alphas.
pub open spec fn type_rank(t: GameVersionType) -> int {
    match t {
        GameVersionType::Release => 0,
        GameVersionType::Snapshot => 1,
        GameVersionType::Beta => 2,
        GameVersionType::Alpha => 3,
    }
}

fn type_rank_exec(t: &GameVersionType) -> (r: u8)
    ensures
        r == type_rank(*t),
{
    match t {
        GameVersionType::Release => 0,
        GameVersionType::Snapshot => 1,
        GameVersionType::Beta => 2,
        GameVersionType::Alpha => 3,
    }
}

/// Whether the version at `i` is listed before the one at `j`: by type, then
/// newest first; versions of equal type and date keep their order.
pub open spec fn listed_before(vs: Seq<GameVersion>, i: int, j: int) -> bool {
    let (a, b) = (vs[i], vs[j]);
    ||| type_rank(a.version_type) < type_rank(b.version_type)
    ||| type_rank(a.version_type) == type_rank(b.version_type) && a.date > b.date
    ||| type_rank(a.version_type) == type_rank(b.version_type) && a.date == b.date && i < j
}

/// The order the game versions are listed in, as positions into `versions`:
/// releases, then snapshots, betas and alphas, each newest first, and
/// versions of equal type and date in the order given (a stable sort).
pub fn sort_game_versions(versions: &Vec<GameVersion>) -> (r: Vec<usize>)
    ensures
        r@.len() == versions@.len(),
        forall|k: int| 0 <= k < r@.len() ==> r@[k] < versions@.len(),
        forall|j: int, k: int|
            0 <= j < k < r@.len() ==> listed_before(versions@, #[trigger] r@[j] as int, #[trigger] r@[k] as int),
{
    let mut order: Vec<usize> = Vec::new();
    let mut i: usize = 0;
    while i < versions.len()
        invariant
            i <= versions.len(),
            order@.len() == i,
            forall|k: int| 0 <= k < order@.len() ==> order@[k] < i,
            forall|j: int, k: int|
                0 <= j < k < order@.len() ==> listed_before(versions@, #[trigger] order@[j] as int, #[trigger] order@[k] as int),
        decreases versions.len() - i,
    {
        let rank = type_rank_exec(&versions[i].version_type);
        let date = versions[i].date;
        let mut pos: usize = 0;
        while pos < order.len()
            invariant
                pos <= order@.len(),
                i < versions@.len(),
                rank == type_rank(versions@[i as int].version_type),
                date == versions@[i as int].date,
                forall|k: int| 0 <= k < order@.len() ==> order@[k] < i,
                forall|k: int| 0 <= k < pos ==> listed_before(versions@, #[trigger] order@[k] as int, i as int),
            ensures
                pos <= order@.len(),
                forall|k: int| 0 <= k < pos ==> listed_before(versions@, #[trigger] order@[k] as int, i as int),
                pos < order@.len() ==> listed_before(versions@, i as int, order@[pos as int] as int),
            decreases order@.len() - pos,
        {
            let o = order[pos];
            let r2 = type_rank_exec(&versions[o].version_type);
            let d2 = versions[o].date;
            if r2 < rank || (r2 == rank && d2 >= date) {
                pos = pos + 1;
            } else {
                break;
            }
        }
        let ghost before = order@;
        proof {
            assert forall|k: int| pos <= k < before.len() implies listed_before(versions@, i as int, #[trigger] before[k] as int) by {
                if k > pos {
                    // sortedness of the rest
                    assert(listed_before(versions@, before[pos as int] as int, before[k] as int));
                }
            }
        }
        order.insert(pos, i);
        assert forall|j: int, k: int|
            0 <= j < k < order@.len() implies listed_before(versions@, #[trigger] order@[j] as int, #[trigger] order@[k] as int) by {
            if k < pos {
                assert(order@[j] == before[j] && order@[k] == before[k]);
            } else if k == pos {
                assert(order@[j] == before[j]);
            } else if j < pos {
                assert(order@[j] == before[j] && order@[k] == before[k - 1]);
            } else if j == pos {
                assert(order@[k] == before[k - 1]);
            } else {
                assert(order@[j] == before[j - 1] && order@[k] == before[k - 1]);
            }
        }
        i = i + 1;
    }
    order
}

/// The positions, in the listing, of the versions that are among the defaults.
pub open spec fn defaults_at(listed: Seq<Seq<char>>, defaults: Seq<Seq<char>>) -> Seq<usize>
    decreases listed.len(),
{
    if listed.len() == 0 {
        Seq::empty()
    } else {
        let r = defaults_at(listed.drop_last(), defaults);
        if defaults.contains(listed.last()) {
            r.push((listed.len() - 1) as usize)
        } else {
            r
        }
    }
}

/// Whether `s` is among `v`.
fn among(v: &Vec<String>, s: &String) -> (r: bool)
    ensures
        r == views(v@).contains(s@),
{
    let mut i: usize = 0;
    while i < v.len()
        invariant
            i <= v.len(),
            forall|j: int| 0 <= j < i ==> views(v@)[j] != s@,
        decreases v.len() - i,
    {
        if str_eq(v[i].as_str(), s.as_str()) {
            assert(views(v@)[i as int] == s@);
            return true;
        }
        i = i + 1;
    }
    false
}

/// The positions preselected when picking Minecraft versions: those of the
/// listed versions that are among the defaults, in listing order.
pub fn default_indices(listed: &Vec<String>, defaults: &Vec<String>) -> (r: Vec<usize>)
    ensures
        r@ == defaults_at(views(listed@), views(defaults@)),
{
    let ghost lv = views(listed@);
    let mut r: Vec<usize> = Vec::new();
    let mut i: usize = 0;
    while i < listed.len()
        invariant
            i <= listed.len(),
            lv == views(listed@),
            r@ == defaults_at(lv.take(i as int), views(defaults@)),
        decreases listed.len() - i,
    {
        assert(lv.take(i + 1).drop_last() =~= lv.take(i as int));
        assert(lv.take(i + 1).last() == listed@[i as int]@);
        if among(defaults, &listed[i]) {
            r.push(i);
        }
        i = i + 1;
    }
    assert(lv.take(listed.len() as int) =~= lv);
    r
}

/// The versions at the selected positions of the listing, in listing order.
pub open spec fn picked_at(listed: Seq<Seq<char>>, selected: Seq<usize>) -> Seq<Seq<char>>
    decreases listed.len(),
{
    if listed.len() == 0 {
        Seq::empty()
    } else {
        let r = picked_at(listed.drop_last(), selected);
        if selected.contains((listed.len() - 1) as usize) {
            r.push(listed.last())
        } else {
            r
        }
    }
}

/// The Minecraft versions picked: those at the positions the user selected,
/// in the order they are listed.
pub fn pick_minecraft_versions(listed: &Vec<String>, selected: &Vec<usize>) -> (r: Vec<String>)
    ensures
        views(r@) == picked_at(views(listed@), selected@),
{
    let ghost lv = views(listed@);
    let mut r: Vec<String> = Vec::new();
    let mut i: usize = 0;
    while i < listed.len()
        invariant
            i <= listed.len(),
            lv == views(listed@),
            views(r@) == picked_at(lv.take(i as int), selected@),
        decreases listed.len() - i,
    {
        assert(lv.take(i + 1).drop_last() =~= lv.take(i as int));
        assert(lv.take(i + 1).last() == listed@[i as int]@);
        let mut k: usize = 0;
        let mut found = false;
        while k < selected.len()
            invariant
                k <= selected.len(),
                found ==> selected@.contains(i),
                !found ==> forall|j: int| 0 <= j < k ==> selected@[j] != i,
            decreases selected.len() - k,
        {
            if selected[k] == i {
                found = true;
            }
            k = k + 1;
        }
        assert(found == selected@.contains(i));
        assert(((lv.take(i + 1).len() - 1) as usize) == i);
        if found {
            let ghost before = r@;
            r.push(copy_string(&listed[i]));
            assert(views(r@) =~= views(before).push(listed@[i as int]@));
        }
        i = i + 1;
    }
    assert(lv.take(listed.len() as int) =~= lv);
    r
}

/// What checking an output directory found: whether to warn that it is not
/// called `mods`, and whether to offer a backup of the files in it.
pub struct OutputCheck {
    pub not_called_mods: bool,
    pub offer_backup: bool,
}

/// Whether a directory entry is a file that a backup would keep: a file
/// other than `.DS_Store`.
pub open spec fn backed_up(entry: (bool, Seq<char>)) -> bool {
    entry.0 && entry.1 != ".DS_Store"@
}

/// Whether a directory holds a file that a backup would keep (`entries`:
/// whether each entry is a file, and its name).
pub fn holds_backed_up_files(entries: &Vec<(bool, String)>) -> (r: bool)
    ensures
        r == exists|k: int| 0 <= k < entries@.len() && backed_up((entries@[k].0, #[trigger] entries@[k].1@)),
{
    let mut offer_backup = false;
    let mut i: usize = 0;
    while i < entries.len() && !offer_backup
        invariant
            i <= entries.len(),
            offer_backup ==> exists|k: int| 0 <= k < entries@.len() && backed_up((entries@[k].0, #[trigger] entries@[k].1@)),
            !offer_backup ==> forall|k: int| 0 <= k < i ==> !backed_up((entries@[k].0, #[trigger] entries@[k].1@)),
        decreases entries.len() - i,
    {
        if entries[i].0 && !str_eq(entries[i].1.as_str(), ".DS_Store") {
            assert(backed_up((entries@[i as int].0, entries@[i as int].1@)));
            offer_backup = true;
        }
        i = i + 1;
    }
    offer_backup
}

/// Checks the output directory: it has to be absolute. It is worth a warning
/// where its name is not `mods`, and a backup is offered where it holds files
/// (`entries`: whether each entry is a file, and its name).
pub fn check_output_directory(is_absolute: bool, file_name: &Option<String>, entries: &Vec<(bool, String)>) -> (r: Result<OutputCheck, String>)
    ensures
        !is_absolute ==> (r matches Err(m) && m@ == "The provided output directory is not absolute, i.e. it is a relative path"@),
        is_absolute ==> (r matches Ok(c) && c.not_called_mods == !(file_name matches Some(n) && n@ == "mods"@)
            && c.offer_backup == exists|k: int|
                0 <= k < entries@.len() && backed_up((entries@[k].0, #[trigger] entries@[k].1@))),
{
    if !is_absolute {
        return Err(owned("The provided output directory is not absolute, i.e. it is a relative path"));
    }
    let not_called_mods = match file_name {
        Some(n) => !str_eq(n.as_str(), "mods"),
        None => true,
    };
    let offer_backup = holds_backed_up_files(entries);
    Ok(OutputCheck { not_called_mods, offer_backup })
}

} // verus!
