//! `ferium profile export`: the Modrinth modpack made of a profile — its file
//! name, the entries of its files, and its index.
use crate::modpack::modrinth::{DependencyID, Game, Metadata, ModpackFile};
use crate::scan::{hex_lower, hex_spec, sha1_digest, sha1_of};
use crate::text::{concat, owned};
use sha2::Digest;
use vstd::prelude::*;

verus! {

/// The SHA-512 digest of some bytes, as the `sha2` crate computes it.
pub uninterp spec fn sha512_digest(bytes: Seq<u8>) -> Seq<u8>;

/// `sha2::Sha512::digest`: the SHA-512 digest of the bytes, 64 bytes long.
#[verifier::external_body]
fn sha512_of(bytes: &Vec<u8>) -> (r: Vec<u8>)
    ensures
        r@ == sha512_digest(bytes@),
        r@.len() == 64,
{
    sha2::Sha512::digest(bytes.as_slice()).to_vec()
}

/// The name of the modpack file: the profile's name, a dash, the version,
/// and `.mrpack`.
pub fn modpack_file_name(profile_name: &str, version_id: &str) -> (r: String)
    ensures
        r@ == profile_name@ + "-"@ + version_id@ + ".mrpack"@,
{
    let a = concat(profile_name, "-");
    let b = concat(a.as_str(), version_id);
    concat(b.as_str(), ".mrpack")
}

/// The message packaging fails with when the overrides hold mod files.
pub open spec fn overrides_message() -> Seq<char> {
    "Your overrides directory's mods folder contains files in it, these will interfere with ferium's modpack packaging process! Use the user folder of your profile's output directory to manually include mod files"@
}

/// Whether a file name starts with a dot (a hidden file).
pub open spec fn is_hidden(name: Seq<char>) -> bool {
    name.len() > 0 && name[0] == '.'
}

/// Checks the names of the entries of the overrides' `mods` folder: any that
/// is not hidden fails the packaging.
pub fn check_overrides_mods(entries: &Vec<String>) -> (r: Result<(), String>)
    ensures
        r is Ok <==> forall|k: int| 0 <= k < entries@.len() ==> is_hidden(#[trigger] entries@[k]@),
        r matches Err(m) ==> m@ == overrides_message(),
{
    let mut i: usize = 0;
    while i < entries.len()
        invariant
            i <= entries.len(),
            forall|k: int| 0 <= k < i ==> is_hidden(#[trigger] entries@[k]@),
        decreases entries.len() - i,
    {
        let v = crate::text::chars_of(entries[i].as_str());
        if v.len() == 0 || v[0] != '.' {
            return Err(owned(
                "Your overrides directory's mods folder contains files in it, these will interfere with ferium's modpack packaging process! Use the user folder of your profile's output directory to manually include mod files",
            ));
        }
        i = i + 1;
    }
    Ok(())
}

/// The path of a mod file inside the modpack.
pub open spec fn mod_path(name: Seq<char>) -> Seq<char> {
    "mods/"@ + name
}

/// The entry of a file that Modrinth hosts: under `mods`, with the hashes and
/// size Modrinth gives, downloaded from Modrinth.
pub fn version_file_entry(filename: &str, sha512: String, sha1: String, url: String, size: usize) -> (r: ModpackFile)
    ensures
        r.path@ == mod_path(filename@),
        r.hashes.sha512@ == sha512@,
        r.hashes.sha1@ == sha1@,
        r.env is None,
        r.downloads@.len() == 1,
        r.downloads@[0]@ == url@,
        r.file_size == size,
{
    let mut downloads: Vec<String> = Vec::new();
    downloads.push(url);
    ModpackFile {
        path: concat("mods/", filename),
        hashes: crate::modpack::modrinth::Hash { sha512, sha1 },
        env: None,
        downloads,
        file_size: size,
    }
}

/// The entry of a GitHub release asset, once downloaded: under `mods`, with
/// the hashes of its contents in lowercase hexadecimal, downloaded from GitHub.
pub fn hashed_asset_entry(name: &str, url: &str, data: &Vec<u8>, size: usize) -> (r: ModpackFile)
    ensures
        r.path@ == mod_path(name@),
        r.hashes.sha512@ == hex_spec(sha512_digest(data@)),
        r.hashes.sha1@ == hex_spec(sha1_digest(data@)),
        r.env is None,
        r.downloads@.len() == 1,
        r.downloads@[0]@ == url@,
        r.file_size == size,
{
    let sha512 = hex_lower(&sha512_of(data));
    let sha1 = hex_lower(&sha1_of(data));
    version_file_entry(name, sha512, sha1, owned(url), size)
}

/// The index of the modpack: format 1, for Minecraft, named after the
/// profile, depending on the profile's Minecraft version and the given
/// version of the Quilt loader.
pub fn export_metadata(
    profile_name: &str,
    game_version: &str,
    version_id: String,
    summary: Option<String>,
    files: Vec<ModpackFile>,
    loader_version: String,
) -> (r: Metadata)
    ensures
        r.format_version == 1,
        r.game == Game::Minecraft,
        r.version_id == version_id,
        r.name@ == profile_name@,
        r.summary == summary,
        r.files == files,
        r.dependencies@.len() == 2,
        r.dependencies@[0].0 == DependencyID::Minecraft,
        r.dependencies@[0].1@ == game_version@,
        r.dependencies@[1].0 == DependencyID::QuiltLoader,
        r.dependencies@[1].1 == loader_version,
{
    let mut dependencies: Vec<(DependencyID, String)> = Vec::new();
    dependencies.push((DependencyID::Minecraft, owned(game_version)));
    dependencies.push((DependencyID::QuiltLoader, loader_version));
    Metadata {
        format_version: 1,
        game: Game::Minecraft,
        version_id,
        name: owned(profile_name),
        summary,
        files,
        dependencies,
    }
}

/// The folders, below the home directory, where the files that are not on
/// Modrinth are gathered for a profile's modpack.
pub fn included_mods_parts(profile_name: &str) -> (r: Vec<String>)
    ensures
        r@.len() == 5,
        r@[0]@ == ".config"@,
        r@[1]@ == "ferium"@,
        r@[2]@ == ".tmp"@,
        r@[3]@ == "export"@,
        r@[4]@ == profile_name@,
{
    let mut v: Vec<String> = Vec::new();
    v.push(owned(".config"));
    v.push(owned("ferium"));
    v.push(owned(".tmp"));
    v.push(owned("export"));
    v.push(owned(profile_name));
    v
}

} // verus!
