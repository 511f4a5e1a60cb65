//! `ferium modpack`: adding, configuring, switching, deleting and upgrading modpacks.
use crate::config::structs::{Config, Modpack, ModpackIdentifier};
use crate::modpack::curseforge::Manifest;
use crate::modpack::modrinth::DependencyID;
use crate::subcommands::profile::{backed_up, first_exactly, first_named, holds_backed_up_files, Switched};
use crate::subcommands::upgrade::{extension_of, last_dot, lemma_last_dot};
use crate::upgrade::{is_file_name_of, try_from_cf_file, CurseForgeFile, DistributionDeniedError, DownloadData};
use crate::text::{chars_of, concat, eq_ignore_ascii_case, eq_ignore_ascii_case_spec, join, join_spec, owned, parse_i32, parse_i32_spec, str_eq, views};
use vstd::prelude::*;

verus! {

/// The names of the modpacks.
pub open spec fn modpack_names(ms: Seq<Modpack>) -> Seq<Seq<char>> {
    ms.map_values(|m: Modpack| m.name@)
}

/// The index of the first modpack named `name`, ignoring ASCII case, or exactly.
pub fn modpack_named(modpacks: &Vec<Modpack>, name: &str, ignore_case: bool) -> (r: Option<usize>)
    ensures
        r matches Some(i) ==> i < modpacks.len(),
        ignore_case ==> match r {
            Some(i) => first_named(modpack_names(modpacks@), name@) == Some(i as int),
            None => first_named(modpack_names(modpacks@), name@) is None,
        },
        !ignore_case ==> match r {
            Some(i) => first_exactly(modpack_names(modpacks@), name@) == Some(i as int),
            None => first_exactly(modpack_names(modpacks@), name@) is None,
        },
{
    let ghost names = modpack_names(modpacks@);
    let mut i: usize = 0;
    while i < modpacks.len()
        invariant
            i <= modpacks.len(),
            names == modpack_names(modpacks@),
            forall|j: int| 0 <= j < i ==> !(if ignore_case {
                eq_ignore_ascii_case_spec(names[j], name@)
            } else {
                names[j] == name@
            }),
        decreases modpacks.len() - i,
    {
        assert(names[i as int] == modpacks@[i as int].name@);
        let hit = if ignore_case {
            eq_ignore_ascii_case(modpacks[i].name.as_str(), name)
        } else {
            str_eq(modpacks[i].name.as_str(), name)
        };
        if hit {
            assert forall|k: int|
                0 <= k < names.len() && (if ignore_case { eq_ignore_ascii_case_spec(names[k], name@) } else { names[k] == name@ }) && (forall|j: int|
                    0 <= j < k ==> !(if ignore_case { eq_ignore_ascii_case_spec(names[j], name@) } else { names[j] == name@ })) implies k == i by {
                if k > i {
                    assert(!(if ignore_case { eq_ignore_ascii_case_spec(names[i as int], name@) } else { names[i as int] == name@ }));
                }
            }
            return Some(i);
        }
        i = i + 1;
    }
    None
}

/// Switches to the modpack named `modpack_name` (ignoring ASCII case); with
/// no name given, the user must pick one. With one modpack or none, the first
/// is made active and there is nothing to switch between.
pub fn switch(config: &mut Config, modpack_name: Option<String>) -> (r: Result<Switched, String>)
    ensures
        final(config).profiles == old(config).profiles,
        final(config).modpacks == old(config).modpacks,
        final(config).active_profile == old(config).active_profile,
        old(config).modpacks.len() <= 1 ==> (r matches Err(m) && m@ == "There is only 1 modpack in your config"@
            && final(config).active_modpack == 0),
        old(config).modpacks.len() > 1 ==> match modpack_name {
            Some(n) => match first_named(modpack_names(old(config).modpacks@), n@) {
                Some(i) => r == Ok::<Switched, String>(Switched::Done) && final(config).active_modpack == i,
                None => (r matches Err(m) && m@ == "The modpack provided does not exist"@
                    && final(config).active_modpack == old(config).active_modpack),
            },
            None => r == Ok::<Switched, String>(Switched::PickNeeded) && final(config).active_modpack
                == old(config).active_modpack,
        },
{
    if config.modpacks.len() <= 1 {
        config.active_modpack = 0;
        return Err(owned("There is only 1 modpack in your config"));
    }
    match modpack_name {
        Some(n) => match modpack_named(&config.modpacks, n.as_str(), true) {
            Some(i) => {
                config.active_modpack = i;
                Ok(Switched::Done)
            },
            None => Err(owned("The modpack provided does not exist")),
        },
        None => Ok(Switched::PickNeeded),
    }
}

/// The modpack to delete: the one named `name` exactly.
pub fn modpack_to_delete(config: &Config, name: &str) -> (r: Result<usize, String>)
    ensures
        match first_exactly(modpack_names(config.modpacks@), name@) {
            Some(i) => r == Ok::<usize, String>(i as usize),
            None => (r matches Err(m) && m@ == "The modpack name provided does not exist"@),
        },
        r matches Ok(i) ==> i < config.modpacks.len(),
{
    match modpack_named(&config.modpacks, name, false) {
        Some(i) => Ok(i),
        None => Err(owned("The modpack name provided does not exist")),
    }
}

/// Deletes the modpack at `selection`, moving the last one to its place.
/// Where it was the active one, the modpack named `switch_to` becomes active
/// (or the user must pick) if more than one is left, else the first.
pub fn delete(config: &mut Config, selection: usize, switch_to: Option<String>) -> (r: Result<Switched, String>)
    requires
        selection < old(config).modpacks.len(),
    ensures
        final(config).modpacks@ == old(config).modpacks@.update(
            selection as int,
            old(config).modpacks@.last(),
        ).drop_last(),
        final(config).profiles == old(config).profiles,
        final(config).active_profile == old(config).active_profile,
        old(config).active_modpack != selection ==> r == Ok::<Switched, String>(Switched::Done)
            && final(config).active_modpack == old(config).active_modpack,
        old(config).active_modpack == selection && old(config).modpacks.len() - 1 <= 1 ==> r
            == Ok::<Switched, String>(Switched::Done) && final(config).active_modpack == 0,
        old(config).active_modpack == selection && old(config).modpacks.len() - 1 > 1 ==> match switch_to {
            Some(n) => match first_named(modpack_names(final(config).modpacks@), n@) {
                Some(i) => r == Ok::<Switched, String>(Switched::Done) && final(config).active_modpack == i,
                None => (r matches Err(m) && m@ == "The modpack provided does not exist"@),
            },
            None => r == Ok::<Switched, String>(Switched::PickNeeded),
        },
{
    config.modpacks.swap_remove(selection);
    if config.active_modpack == selection {
        if config.modpacks.len() > 1 {
            switch(config, switch_to)
        } else {
            config.active_modpack = 0;
            Ok(Switched::Done)
        }
    } else {
        Ok(Switched::Done)
    }
}

/// Where a modpack comes from: a number is a CurseForge project, anything else
/// a Modrinth project.
pub fn modpack_identifier(identifier: &String) -> (r: ModpackIdentifier)
    ensures
        match parse_i32_spec(identifier@) {
            Some(n) => r == ModpackIdentifier::CurseForgeModpack(n),
            None => r matches ModpackIdentifier::ModrinthModpack(s) && s@ == identifier@,
        },
{
    match parse_i32(identifier.as_str()) {
        Some(n) => ModpackIdentifier::CurseForgeModpack(n),
        None => ModpackIdentifier::ModrinthModpack(crate::text::copy_string(identifier)),
    }
}

/// Adds a modpack and makes it the active one.
pub fn add_modpack(config: &mut Config, modpack: Modpack)
    ensures
        final(config).modpacks@ == old(config).modpacks@.push(modpack),
        final(config).active_modpack == old(config).modpacks@.len(),
        final(config).profiles == old(config).profiles,
        final(config).active_profile == old(config).active_profile,
{
    config.modpacks.push(modpack);
    config.active_modpack = config.modpacks.len() - 1;
}

/// Sets the settings given; returns which of the output directory and the
/// installation of overrides the user is still to be asked for.
pub fn configure(modpack: &mut Modpack, output_dir: Option<String>, install_overrides: Option<bool>) -> (r: (bool, bool))
    ensures
        r.0 == output_dir is None,
        r.1 == install_overrides is None,
        final(modpack).output_dir == (match output_dir {
            Some(d) => d,
            None => old(modpack).output_dir,
        }),
        final(modpack).install_overrides == (match install_overrides {
            Some(b) => b,
            None => old(modpack).install_overrides,
        }),
        final(modpack).name == old(modpack).name,
        final(modpack).identifier == old(modpack).identifier,
{
    let ask_dir = output_dir.is_none();
    let ask_overrides = install_overrides.is_none();
    if let Some(d) = output_dir {
        modpack.output_dir = d;
    }
    if let Some(b) = install_overrides {
        modpack.install_overrides = b;
    }
    (ask_dir, ask_overrides)
}

/// The name of a dependency of a Modrinth modpack, as its debug form shows it.
pub open spec fn dependency_id_text(d: DependencyID) -> Seq<char> {
    match d {
        DependencyID::Minecraft => "Minecraft"@,
        DependencyID::Forge => "Forge"@,
        DependencyID::Neoforge => "Neoforge"@,
        DependencyID::FabricLoader => "FabricLoader"@,
        DependencyID::QuiltLoader => "QuiltLoader"@,
    }
}

fn dependency_id_name(d: DependencyID) -> (r: String)
    ensures
        r@ == dependency_id_text(d),
{
    match d {
        DependencyID::Minecraft => owned("Minecraft"),
        DependencyID::Forge => owned("Forge"),
        DependencyID::Neoforge => owned("Neoforge"),
        DependencyID::FabricLoader => owned("FabricLoader"),
        DependencyID::QuiltLoader => owned("QuiltLoader"),
    }
}

/// What a CurseForge modpack is played with.
pub fn curseforge_install_message(manifest: &Manifest) -> (r: String)
    ensures
        r@ == "You can play this modpack using Minecraft "@ + manifest.minecraft.version@ + " with "@
            + join_spec(manifest.minecraft.mod_loaders@.map_values(|l: crate::modpack::curseforge::ModpackModLoader| l.id@), ", "@),
{
    let loaders = &manifest.minecraft.mod_loaders;
    let mut ids: Vec<String> = Vec::new();
    let mut i: usize = 0;
    while i < loaders.len()
        invariant
            i <= loaders.len(),
            views(ids@) == loaders@.take(i as int).map_values(|l: crate::modpack::curseforge::ModpackModLoader| l.id@),
        decreases loaders.len() - i,
    {
        let ghost before = views(ids@);
        ids.push(crate::text::copy_string(&loaders[i].id));
        assert(loaders@.take(i + 1) =~= loaders@.take(i as int).push(loaders@[i as int]));
        assert(views(ids@) =~= before.push(loaders@[i as int].id@));
        assert(views(ids@) =~= loaders@.take(i + 1).map_values(|l: crate::modpack::curseforge::ModpackModLoader| l.id@));
        i = i + 1;
    }
    assert(loaders@.take(loaders.len() as int) =~= loaders@);
    let joined = join(&ids, ", ");
    let a = concat("You can play this modpack using Minecraft ", manifest.minecraft.version.as_str());
    let b = concat(a.as_str(), " with ");
    concat(b.as_str(), joined.as_str())
}

/// The lines telling what a Modrinth modpack is played with: each dependency and its version.
pub open spec fn dependency_lines(deps: Seq<(DependencyID, String)>) -> Seq<Seq<char>> {
    deps.map_values(|d: (DependencyID, String)| dependency_id_text(d.0) + " "@ + d.1@)
}

/// What a Modrinth modpack is played with.
pub fn modrinth_install_message(dependencies: &Vec<(DependencyID, String)>) -> (r: String)
    ensures
        r@ == "You can play this modpack using the following:\n"@ + join_spec(dependency_lines(dependencies@), "\n"@),
{
    let mut lines: Vec<String> = Vec::new();
    let mut i: usize = 0;
    while i < dependencies.len()
        invariant
            i <= dependencies.len(),
            views(lines@) == dependency_lines(dependencies@.take(i as int)),
        decreases dependencies.len() - i,
    {
        let (d, v) = &dependencies[i];
        let name = dependency_id_name(*d);
        let a = concat(name.as_str(), " ");
        let line = concat(a.as_str(), v.as_str());
        let ghost before = views(lines@);
        lines.push(line);
        assert(dependencies@.take(i + 1) =~= dependencies@.take(i as int).push(dependencies@[i as int]));
        assert(views(lines@) =~= before.push(dependency_id_text(dependencies@[i as int].0) + " "@ + dependencies@[i as int].1@));
        assert(views(lines@) =~= dependency_lines(dependencies@.take(i + 1)));
        i = i + 1;
    }
    assert(dependencies@.take(dependencies.len() as int) =~= dependencies@);
    let joined = join(&lines, "\n");
    concat("You can play this modpack using the following:\n", joined.as_str())
}

/// The folder a file of a CurseForge modpack goes to: `resourcepacks` where
/// its extension is `.zip` (compared ignoring ASCII case), else `mods`.
pub open spec fn modpack_folder(filename: Seq<char>) -> Seq<char> {
    if extension_of(filename) matches Some(e) && eq_ignore_ascii_case_spec(e, ".zip"@) {
        "resourcepacks"@
    } else {
        "mods"@
    }
}

/// An extension as `extension_of` reads it never holds a dot, so no file is
/// ever put in `resourcepacks`: every file of a CurseForge modpack goes to `mods`.
pub proof fn lemma_modpack_folder_is_mods(filename: Seq<char>)
    ensures
        modpack_folder(filename) == "mods"@,
{
    lemma_last_dot(filename);
    reveal_strlit(".zip");
    if let Some(e) = extension_of(filename) {
        let p = last_dot(filename)->0;
        if e.len() > 0 {
            assert(e[0] == filename[p + 1]);
        }
        if eq_ignore_ascii_case_spec(e, ".zip"@) {
            assert(e.len() == 4);
            assert(crate::text::ascii_lower(e[0]) == crate::text::ascii_lower('.'));
            assert(false);
        }
    }
}

/// The folder a file of a CurseForge modpack goes to.
pub fn modpack_file_folder(filename: &str) -> (r: String)
    ensures
        r@ == modpack_folder(filename@),
{
    let v = chars_of(filename);
    let mut i: usize = v.len();
    proof {
        lemma_last_dot(filename@);
    }
    while i > 0
        invariant
            i <= v.len(),
            v@ == filename@,
            forall|j: int| i <= j < v.len() ==> v@[j] != '.',
        decreases i,
    {
        if v[i - 1] == '.' {
            proof {
                lemma_last_dot(filename@);
            }
            assert(last_dot(filename@) == Some(i - 1));
            if i - 1 == 0 {
                return owned("mods");
            }
            let mut rest: Vec<char> = Vec::new();
            let mut k: usize = i;
            while k < v.len()
                invariant
                    i <= k <= v.len(),
                    rest@ == v@.subrange(i as int, k as int),
                decreases v.len() - k,
            {
                rest.push(v[k]);
                k = k + 1;
            }
            let ext = crate::text::string_from_chars(&rest);
            assert(rest@ =~= filename@.skip(i as int));
            if eq_ignore_ascii_case(ext.as_str(), ".zip") {
                return owned("resourcepacks");
            } else {
                return owned("mods");
            }
        }
        i = i - 1;
    }
    proof {
        lemma_last_dot(filename@);
    }
    owned("mods")
}

/// The files of a CurseForge modpack whose developers deny third party
/// downloads, as project and file IDs, in order.
pub open spec fn denied_files(files: Seq<CurseForgeFile>) -> Seq<(i32, i32)>
    decreases files.len(),
{
    if files.len() == 0 {
        Seq::empty()
    } else {
        let rest = denied_files(files.drop_last());
        if files.last().download_url is None {
            rest.push((files.last().mod_id, files.last().id))
        } else {
            rest
        }
    }
}

/// The files of a CurseForge modpack that can be downloaded, in order.
pub open spec fn allowed_files(files: Seq<CurseForgeFile>) -> Seq<CurseForgeFile>
    decreases files.len(),
{
    if files.len() == 0 {
        Seq::empty()
    } else {
        let rest = allowed_files(files.drop_last());
        if files.last().download_url is Some {
            rest.push(files.last())
        } else {
            rest
        }
    }
}

/// How a file of a CurseForge modpack is downloaded: from its address, with
/// its length, to `mods` under the file's name.
pub open spec fn modpack_download(d: DownloadData, f: CurseForgeFile) -> bool {
    &&& d.download_url@ == f.download_url->0@
    &&& d.length == f.file_length as usize
    &&& exists|name: Seq<char>| is_file_name_of(name, f.file_name@) && d.output@ == "mods"@ + "/"@ + name
}

/// The files of a CurseForge modpack to download, each under the folder it
/// goes to, and those whose developers deny third party downloads.
pub fn modpack_downloads(files: Vec<CurseForgeFile>) -> (r: (Vec<DownloadData>, Vec<DistributionDeniedError>))
    ensures
        r.1@.map_values(|e: DistributionDeniedError| (e.0, e.1)) == denied_files(files@),
        r.0@.len() == allowed_files(files@).len(),
        forall|k: int| 0 <= k < r.0@.len() ==> modpack_download(#[trigger] r.0@[k], allowed_files(files@)[k]),
{
    let ghost all = files@;
    assert(all.len() <= usize::MAX) by {
        let n = files.len();
    }
    let mut rest = files;
    let mut downloads: Vec<DownloadData> = Vec::new();
    let mut denied: Vec<DistributionDeniedError> = Vec::new();
    let mut i: usize = 0;
    while rest.len() > 0
        invariant
            i + rest@.len() == all.len(),
            all.len() <= usize::MAX,
            rest@ == all.skip(i as int),
            denied@.map_values(|e: DistributionDeniedError| (e.0, e.1)) == denied_files(all.take(i as int)),
            downloads@.len() == allowed_files(all.take(i as int)).len(),
            forall|k: int| 0 <= k < downloads@.len() ==> modpack_download(#[trigger] downloads@[k], allowed_files(all.take(i as int))[k]),
        decreases rest.len(),
    {
        let ghost rest_before = rest@;
        let file = rest.remove(0);
        assert(file == all[i as int]) by {
            assert(rest_before[0] == all.skip(i as int)[0]);
        }
        assert(rest@ =~= all.skip(i + 1));
        assert(all.take(i + 1).drop_last() =~= all.take(i as int));
        assert(all.take(i + 1).last() == file);
        let ghost f = file;
        match try_from_cf_file(file) {
            Ok((_, mut d)) => {
                let name = d.filename();
                let folder = modpack_file_folder(name.as_str());
                proof {
                    lemma_modpack_folder_is_mods(name@);
                }
                let a = concat(folder.as_str(), "/");
                d.output = concat(a.as_str(), name.as_str());
                assert(is_file_name_of(name@, f.file_name@));
                assert(d.output@ == "mods"@ + "/"@ + name@);
                assert(modpack_download(d, f));
                let ghost before = downloads@;
                downloads.push(d);
                assert forall|k: int| 0 <= k < downloads@.len() implies modpack_download(#[trigger] downloads@[k], allowed_files(all.take(i + 1))[k]) by {
                    if k < before.len() {
                        assert(downloads@[k] == before[k]);
                    }
                }
            },
            Err(e) => {
                let ghost before = denied@;
                denied.push(e);
                assert(denied@.map_values(|e: DistributionDeniedError| (e.0, e.1)) =~= before.map_values(
                    |e: DistributionDeniedError| (e.0, e.1),
                ).push((f.mod_id, f.id)));
            },
        }
        i = i + 1;
    }
    assert(all.take(i as int) =~= all);
    (downloads, denied)
}

/// Where to download a file whose developer denies third party downloads by
/// hand: the project's website, `/download/`, and the file's ID.
pub fn denied_download_url(website_url: &str, file_id: i32) -> (r: String)
    ensures
        r@ == website_url@ + "/download/"@ + crate::text::i32_decimal(file_id),
{
    let a = concat(website_url, "/download/");
    concat(a.as_str(), crate::text::i32_to_string(file_id).as_str())
}

/// Which folders of a modpack's output directory hold files that a backup
/// would keep: `mods` and `resourcepacks`, whose contents an upgrade replaces.
pub struct ModpackOutputCheck {
    pub backup_mods: bool,
    pub backup_resourcepacks: bool,
}

/// Checks a modpack's output directory: it has to be absolute, and a backup
/// is offered of its `mods` and `resourcepacks` folders where they hold files
/// (the entries of each: whether each is a file, and its name).
pub fn check_output_directory(
    is_absolute: bool,
    mods_entries: &Vec<(bool, String)>,
    resourcepacks_entries: &Vec<(bool, String)>,
) -> (r: Result<ModpackOutputCheck, String>)
    ensures
        !is_absolute ==> (r matches Err(m) && m@ == "The provided output directory is not absolute, i.e. it is a relative path"@),
        is_absolute ==> (r matches Ok(c)
            && c.backup_mods == exists|k: int|
                0 <= k < mods_entries@.len() && backed_up((mods_entries@[k].0, #[trigger] mods_entries@[k].1@))
            && c.backup_resourcepacks == exists|k: int|
                0 <= k < resourcepacks_entries@.len()
                    && backed_up((resourcepacks_entries@[k].0, #[trigger] resourcepacks_entries@[k].1@))),
{
    if !is_absolute {
        return Err(owned("The provided output directory is not absolute, i.e. it is a relative path"));
    }
    Ok(ModpackOutputCheck {
        backup_mods: holds_backed_up_files(mods_entries),
        backup_resourcepacks: holds_backed_up_files(resourcepacks_entries),
    })
}

} // verus!
