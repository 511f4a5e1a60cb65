//! The records of the Labrinth (Modrinth) API that ferium reads, and the
//! addresses it requests them from.
use crate::text::{concat, copy_string, owned};
use vstd::prelude::*;

verus! {

pub struct User {
    pub id: String,
    pub github_id: Option<u64>,
    pub username: String,
    pub name: String,
    pub email: Option<String>,
    pub avatar_url: Option<String>,
    pub bio: String,
    pub created: String,
    pub role: String,
}

pub struct Mod {
    pub id: String,
    pub slug: String,
    pub team: String,
    pub title: String,
    pub description: String,
    pub body: String,
    /// Read from `Mod.body` instead
    pub body_url: Option<String>,
    pub published: String,
    pub updated: String,
    pub status: String,
    pub license: License,
    pub client_side: String,
    pub server_side: String,
    pub downloads: usize,
    pub categories: Vec<String>,
    pub versions: Vec<String>,
    pub icon_url: Option<String>,
    pub issues_url: Option<String>,
    pub source_url: Option<String>,
    pub wiki_url: Option<String>,
    pub discord_url: Option<String>,
    pub donation_urls: Option<Vec<DonationLink>>,
}

pub struct Version {
    pub id: String,
    pub mod_id: String,
    pub author_id: String,
    pub featured: bool,
    pub name: String,
    pub version_number: String,
    pub changelog: Option<String>,
    /// Read from `Version.changelog` instead
    pub changelog_url: Option<String>,
    pub date_published: String,
    pub downloads: usize,
    pub version_type: String,
    pub files: Vec<VersionFile>,
    pub dependencies: Vec<String>,
    pub game_versions: Vec<String>,
    pub loaders: Vec<String>,
}

pub struct VersionFile {
    /// The hashes of the file, by algorithm
    pub hashes: Vec<(String, String)>,
    pub url: String,
    pub filename: String,
}

pub struct License {
    pub id: String,
    pub name: String,
    pub url: Option<String>,
}

pub struct DonationLink {
    pub id: String,
    pub platform: String,
    pub url: String,
}

/// The address requested: a relative one is under the Labrinth API's base.
pub open spec fn request_url_spec(url: Seq<char>, relative: bool) -> Seq<char> {
    if relative {
        "https://api.modrinth.com/api/v1"@ + url
    } else {
        url
    }
}

/// The address of a request: `url` under the Labrinth API's base where it is
/// relative, else `url` itself.
pub fn request_url(url: &str, relative: bool) -> (r: String)
    ensures
        r@ == request_url_spec(url@, relative),
{
    if relative {
        concat("https://api.modrinth.com/api/v1", url)
    } else {
        owned(url)
    }
}

/// The relative address of a mod, by slug or ID.
pub fn mod_path(mod_id: &str) -> (r: String)
    ensures
        r@ == "/mod/"@ + mod_id@,
{
    concat("/mod/", mod_id)
}

/// The relative address of the versions of a mod.
pub fn versions_path(mod_id: &str) -> (r: String)
    ensures
        r@ == "/mod/"@ + mod_id@ + "/version"@,
{
    let a = concat("/mod/", mod_id);
    concat(a.as_str(), "/version")
}

/// The address a version's JAR is downloaded from: that of its first file.
pub fn download_url(version: &Version) -> (r: String)
    requires
        version.files@.len() > 0,
    ensures
        r@ == version.files@[0].url@,
{
    copy_string(&version.files[0].url)
}

} // verus!
