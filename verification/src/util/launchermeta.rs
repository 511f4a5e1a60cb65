//! Mojang's Minecraft version manifest (version 2), as read from its JSON.
use vstd::prelude::*;

verus! {

/// The manifest: the latest versions, and every version, newest first.
pub struct VersionManifestV2 {
    /// IDs of the latest versions of Minecraft
    pub latest: LatestVersions,
    /// All versions of Minecraft
    pub versions: Vec<Version>,
}

pub struct LatestVersions {
    /// Latest release of Minecraft's ID
    pub release: String,
    /// Latest snapshot of Minecraft's ID
    pub snapshot: String,
}

pub struct Version {
    /// Name of version
    pub id: String,
    /// Type of version
    pub type_field: VersionType,
    /// URL to version's manifest
    pub url: String,
    pub time: String,
    /// Time when versions was released
    pub release_time: String,
    /// SHA1 hash of the version
    pub sha1: String,
    /// Whether this version is "historical"
    pub compliance_level: u32,
}

#[derive(Debug, Clone, Copy, PartialEq, Eq, Structural)]
pub enum VersionType {
    Release,
    Snapshot,
    Beta,
    Alpha,
}

/// The URL the manifest is fetched from.
pub fn version_manifest_url() -> (r: &'static str)
    ensures
        r@ == "https://launchermeta.mojang.com/mc/game/version_manifest_v2.json"@,
{
    "https://launchermeta.mojang.com/mc/game/version_manifest_v2.json"
}

} // verus!
