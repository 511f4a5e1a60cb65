//! Choosing what a command works on: the active profile or modpack, and the
//! order in which a profile's mods are stored.
use crate::cli::Platform;
use crate::config::structs::{Config, Mod, ModIdentifier, ModIdentifierView, Profile};
use crate::order::{insertion_point, keys_sorted, lemma_insert_sorted, text_le};
use crate::text::{owned, to_lowercase, unicode_lowercase, views};
use vstd::prelude::*;

verus! {

/// The key mods are stored in order of: the name in lowercase.
pub open spec fn mod_key(m: Mod) -> Seq<char> {
    unicode_lowercase(m.name@)
}

/// Sorts mods by their names in lowercase; mods of equal keys come in any order.
pub fn sort_mods(mods: Vec<Mod>) -> (r: Vec<Mod>)
    ensures
        r@.to_multiset() == mods@.to_multiset(),
        keys_sorted(r@.map_values(|m: Mod| mod_key(m))),
{
    let ghost all = mods@;
    assert(all.len() == mods.len());
    let mut rest = mods;
    let mut items: Vec<Mod> = Vec::new();
    let mut keys: Vec<String> = Vec::new();
    let mut i: usize = 0;
    assert(all.take(0) =~= Seq::<Mod>::empty());
    assert(views(keys@) =~= items@.map_values(|m: Mod| mod_key(m)));
    while rest.len() > 0
        invariant
            i + rest.len() == all.len(),
            all.len() <= usize::MAX,
            rest@ == all.skip(i as int),
            views(keys@) == items@.map_values(|m: Mod| mod_key(m)),
            keys_sorted(views(keys@)),
            items@.to_multiset() == all.take(i as int).to_multiset(),
        decreases rest.len(),
    {
        let ghost rest_before = rest@;
        let m = rest.remove(0);
        assert(m == all[i as int]) by {
            assert(rest_before[0] == all.skip(i as int)[0]);
        }
        assert(rest@ =~= all.skip(i + 1));
        let key = to_lowercase(m.name.as_str());
        let pos = insertion_point(&keys, &key);
        let ghost old_items = items@;
        let ghost old_keys = views(keys@);
        proof {
            assert forall|k: int| 0 <= k < pos implies text_le(old_keys[k], key@) by {
                assert(old_keys[k] == keys@[k]@);
            }
            assert forall|k: int| pos <= k < old_keys.len() implies text_le(key@, old_keys[k]) by {
                assert(old_keys[k] == keys@[k]@);
            }
            lemma_insert_sorted(old_keys, pos as int, key@);
            vstd::seq_lib::to_multiset_insert(old_items, pos as int, m);
            vstd::seq_lib::to_multiset_build(all.take(i as int), m);
            assert(all.take(i + 1) =~= all.take(i as int).push(m));
        }
        keys.insert(pos, key);
        items.insert(pos, m);
        assert(views(keys@) =~= old_keys.insert(pos as int, mod_key(m)));
        assert(items@.map_values(|m: Mod| mod_key(m)) =~= old_items.map_values(|m: Mod| mod_key(m)).insert(
            pos as int,
            mod_key(m),
        ));
        i = i + 1;
    }
    assert(all.take(i as int) =~= all);
    items
}

/// Sorts the mods of every profile by their names in lowercase.
pub fn sort_config_mods(config: &mut Config)
    ensures
        final(config).active_profile == old(config).active_profile,
        final(config).active_modpack == old(config).active_modpack,
        final(config).modpacks == old(config).modpacks,
        final(config).profiles@.len() == old(config).profiles@.len(),
        forall|i: int|
            0 <= i < old(config).profiles@.len() ==> {
                let a = #[trigger] old(config).profiles@[i];
                let b = final(config).profiles@[i];
                &&& b.name == a.name
                &&& b.output_dir == a.output_dir
                &&& b.filters == a.filters
                &&& b.game_version == a.game_version
                &&& b.mod_loader == a.mod_loader
                &&& b.mods@.to_multiset() == a.mods@.to_multiset()
                &&& keys_sorted(b.mods@.map_values(|m: Mod| mod_key(m)))
            },
{
    let mut done: Vec<Profile> = Vec::new();
    let ghost all = config.profiles@;
    let mut rest: Vec<Profile> = Vec::new();
    std::mem::swap(&mut rest, &mut config.profiles);
    assert(rest@ == all);
    assert(all.len() == rest.len());
    let mut i: usize = 0;
    while rest.len() > 0
        invariant
            i + rest.len() == all.len(),
            all.len() <= usize::MAX,
            rest@ == all.skip(i as int),
            done@.len() == i,
            forall|k: int|
                0 <= k < i ==> {
                    let a = #[trigger] all[k];
                    let b = done@[k];
                    &&& b.name == a.name
                    &&& b.output_dir == a.output_dir
                    &&& b.filters == a.filters
                    &&& b.game_version == a.game_version
                    &&& b.mod_loader == a.mod_loader
                    &&& b.mods@.to_multiset() == a.mods@.to_multiset()
                    &&& keys_sorted(b.mods@.map_values(|m: Mod| mod_key(m)))
                },
        decreases rest.len(),
    {
        let ghost rest_before = rest@;
        let p = rest.remove(0);
        assert(p == all[i as int]) by {
            assert(rest_before[0] == all.skip(i as int)[0]);
        }
        assert(rest@ =~= all.skip(i + 1));
        let Profile { name, output_dir, filters, mods, game_version, mod_loader } = p;
        let sorted = sort_mods(mods);
        done.push(Profile { name, output_dir, filters, mods: sorted, game_version, mod_loader });
        i = i + 1;
    }
    config.profiles = done;
}

/// The message for a profile that has no mods.
pub open spec fn empty_profile_message() -> Seq<char> {
    "Your currently selected profile is empty! Run `ferium help` to see how to add mods"@
}

/// An error where `profile` has no mods.
pub fn check_empty_profile(profile: &Profile) -> (r: Result<(), String>)
    ensures
        r is Ok <==> profile.mods.len() > 0,
        r matches Err(m) ==> m@ == empty_profile_message(),
{
    if profile.mods.len() == 0 {
        Err(owned("Your currently selected profile is empty! Run `ferium help` to see how to add mods"))
    } else {
        Ok(())
    }
}

/// Which profile or modpack a command works on.
#[derive(Debug, PartialEq, Eq, Structural)]
pub enum Active {
    /// The one at this index
    Index(usize),
    /// There is none: the user must add one first
    NoneConfigured,
    /// The index recorded is out of range: the user must pick one
    PickNeeded,
}

/// What `active_index` answers for `n` items with `recorded` as the active one.
pub open spec fn active_choice(n: nat, recorded: nat) -> Active {
    if n == 0 {
        Active::NoneConfigured
    } else if n == 1 {
        Active::Index(0)
    } else if recorded >= n {
        Active::PickNeeded
    } else {
        Active::Index(recorded as usize)
    }
}

/// What a switch records as active is what the commands that follow work on:
/// a recorded index in range is the active one.
pub proof fn lemma_recorded_is_active(n: nat, recorded: nat)
    requires
        recorded < n <= usize::MAX,
    ensures
        active_choice(n, recorded) == Active::Index(recorded as usize),
{
}

/// The active one of `n` items, where `recorded` is recorded as active:
/// the only one where there is one, else the recorded one if it is in range.
pub fn active_index(n: usize, recorded: usize) -> (r: Active)
    ensures
        r == active_choice(n as nat, recorded as nat),
{
    if n == 0 {
        Active::NoneConfigured
    } else if n == 1 {
        Active::Index(0)
    } else if recorded >= n {
        Active::PickNeeded
    } else {
        Active::Index(recorded)
    }
}

/// The active profile of `config`; where there is one profile, it is recorded
/// as the active one.
pub fn get_active_profile(config: &mut Config) -> (r: Active)
    ensures
        r == active_choice(old(config).profiles@.len(), old(config).active_profile as nat),
        final(config).profiles == old(config).profiles,
        final(config).modpacks == old(config).modpacks,
        final(config).active_modpack == old(config).active_modpack,
        final(config).active_profile == (if old(config).profiles@.len() == 1 {
            0
        } else {
            old(config).active_profile
        }),
{
    let r = active_index(config.profiles.len(), config.active_profile);
    if config.profiles.len() == 1 {
        config.active_profile = 0;
    }
    r
}

/// The active modpack of `config`; where there is one modpack, it is recorded
/// as the active one.
pub fn get_active_modpack(config: &mut Config) -> (r: Active)
    ensures
        r == active_choice(old(config).modpacks@.len(), old(config).active_modpack as nat),
        final(config).profiles == old(config).profiles,
        final(config).modpacks == old(config).modpacks,
        final(config).active_profile == old(config).active_profile,
        final(config).active_modpack == (if old(config).modpacks@.len() == 1 {
            0
        } else {
            old(config).active_modpack
        }),
{
    let r = active_index(config.modpacks.len(), config.active_modpack);
    if config.modpacks.len() == 1 {
        config.active_modpack = 0;
    }
    r
}

/// The message where no profile is configured.
pub fn no_profiles_message() -> (r: String)
    ensures
        r@ == "There are no profiles configured, add a profile using `ferium profile create`"@,
{
    owned("There are no profiles configured, add a profile using `ferium profile create`")
}

/// The message where no modpack is configured.
pub fn no_modpacks_message() -> (r: String)
    ensures
        r@ == "There are no modpacks configured, add a modpack using `ferium modpack add`"@,
{
    owned("There are no modpacks configured, add a modpack using `ferium modpack add`")
}

/// Filters can only be configured when adding one mod.
pub fn check_add_arguments(identifiers: usize, filters: usize) -> (r: Result<(), String>)
    ensures
        r is Ok <==> !(identifiers > 1 && filters > 0),
        r matches Err(m) ==> m@ == "Only configure filters when adding a single mod!"@,
{
    if identifiers > 1 && filters > 0 {
        Err(owned("Only configure filters when adding a single mod!"))
    } else {
        Ok(())
    }
}

/// The project a scanned file is, where the platforms know it: on Modrinth,
/// on CurseForge, or on both (then on `platform`).
pub open spec fn scanned_project(mr: Option<Seq<char>>, cf: Option<i32>, platform: Platform) -> Option<ModIdentifierView> {
    match (mr, cf) {
        (None, None) => None,
        (Some(m), None) => Some(ModIdentifierView::ModrinthProject(m)),
        (None, Some(c)) => Some(ModIdentifierView::CurseForgeProject(c)),
        (Some(m), Some(c)) => match platform {
            Platform::Modrinth => Some(ModIdentifierView::ModrinthProject(m)),
            Platform::Curseforge => Some(ModIdentifierView::CurseForgeProject(c)),
        },
    }
}

/// The projects of the scanned files, in order, and the names of the files no
/// platform knows.
pub open spec fn scan_results(
    files: Seq<(String, Option<String>, Option<i32>)>,
    platform: Platform,
) -> (Seq<ModIdentifierView>, Seq<Seq<char>>)
    decreases files.len(),
{
    if files.len() == 0 {
        (Seq::empty(), Seq::empty())
    } else {
        let (ids, unknown) = scan_results(files.drop_last(), platform);
        let f = files.last();
        let mr = match f.1 {
            Some(m) => Some(m@),
            None => None,
        };
        match scanned_project(mr, f.2, platform) {
            Some(id) => (ids.push(id), unknown),
            None => (ids, unknown.push(f.0@)),
        }
    }
}

/// Sorts the scanned files into the projects to add and the unknown files.
pub fn scanned_identifiers(files: Vec<(String, Option<String>, Option<i32>)>, platform: Platform) -> (r: (
    Vec<ModIdentifier>,
    Vec<String>,
))
    ensures
        crate::upgrade::identifier_views(r.0@) == scan_results(files@, platform).0,
        views(r.1@) == scan_results(files@, platform).1,
{
    let ghost all = files@;
    assert(all.len() == files.len());
    let mut rest = files;
    let mut ids: Vec<ModIdentifier> = Vec::new();
    let mut unknown: Vec<String> = Vec::new();
    let mut i: usize = 0;
    assert(all.take(0) =~= Seq::<(String, Option<String>, Option<i32>)>::empty());
    assert(crate::upgrade::identifier_views(ids@) =~= Seq::<ModIdentifierView>::empty());
    assert(views(unknown@) =~= Seq::<Seq<char>>::empty());
    while rest.len() > 0
        invariant
            i + rest.len() == all.len(),
            all.len() <= usize::MAX,
            rest@ == all.skip(i as int),
            crate::upgrade::identifier_views(ids@) == scan_results(all.take(i as int), platform).0,
            views(unknown@) == scan_results(all.take(i as int), platform).1,
        decreases rest.len(),
    {
        let ghost rest_before = rest@;
        let f = rest.remove(0);
        assert(f == all[i as int]) by {
            assert(rest_before[0] == all.skip(i as int)[0]);
        }
        assert(rest@ =~= all.skip(i + 1));
        assert(all.take(i + 1).drop_last() =~= all.take(i as int));
        let ghost before_ids = crate::upgrade::identifier_views(ids@);
        let ghost before_unknown = views(unknown@);
        let (name, mr, cf) = f;
        match (mr, cf) {
            (None, None) => {
                unknown.push(name);
                assert(views(unknown@) =~= before_unknown.push(all[i as int].0@));
            },
            (Some(m), None) => {
                ids.push(ModIdentifier::ModrinthProject(m));
            },
            (None, Some(c)) => {
                ids.push(ModIdentifier::CurseForgeProject(c));
            },
            (Some(m), Some(c)) => match platform {
                Platform::Modrinth => {
                    ids.push(ModIdentifier::ModrinthProject(m));
                },
                Platform::Curseforge => {
                    ids.push(ModIdentifier::CurseForgeProject(c));
                },
            },
        }
        assert(crate::upgrade::identifier_views(ids@) =~= scan_results(all.take(i + 1), platform).0);
        i = i + 1;
    }
    assert(all.take(i as int) =~= all);
    (ids, unknown)
}

} // verus!
