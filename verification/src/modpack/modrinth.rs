//! The index of a Modrinth modpack (`modrinth.index.json`).
use vstd::prelude::*;

verus! {

/// The index of a Modrinth modpack.
#[derive(Debug)]
pub struct Metadata {
    /// The version of the format, stored as a number.
    /// The current value at the time of writing is `1`.
    pub format_version: usize,
    pub game: Game,
    pub version_id: String,
    /// Human readable name of the modpack
    pub name: String,
    /// A short description of this modpack
    pub summary: Option<String>,
    /// A list of files for the modpack that needs
    pub files: Vec<ModpackFile>,
    /// A list of IDs and version numbers that launchers will use in order to know what to install
    pub dependencies: Vec<(DependencyID, String)>,
}

/// What a modpack depends on.
#[derive(Clone, Copy, Debug, PartialEq, Eq, Structural)]
pub enum DependencyID {
    Minecraft,
    Forge,
    Neoforge,
    FabricLoader,
    QuiltLoader,
}

/// The hashes of a file.
#[derive(Debug)]
pub struct Hash {
    pub sha512: String,
    pub sha1: String,
}

/// A file of a modpack.
#[derive(Debug)]
pub struct ModpackFile {
    /// The destination path of this file, relative to the Minecraft instance directory
    pub path: String,
    pub hashes: Hash,
    /// The specific environment this file exists on
    pub env: Option<ModpackFileEnvironment>,
    /// HTTPS URLs where this file may be downloaded
    pub downloads: Vec<String>,
    /// The size of the file in bytes
    pub file_size: usize,
}

/// Whether a project runs on one side.
#[derive(Clone, Copy, Debug, PartialEq, Eq, Structural)]
pub enum SideType {
    /// The mod is required on this side to function
    Required,
    /// The mod is not required on this side to function.
    /// However, functionality might be enhanced if it is present.
    Optional,
    /// The mod will not run on this side
    Unsupported,
    /// It is unknown if the project will run on this side
    Unknown,
}

/// The sides a file of a modpack is for.
#[derive(Clone, Copy, Debug, PartialEq, Eq, Structural)]
pub struct ModpackFileEnvironment {
    pub client: SideType,
    pub server: SideType,
}

/// The game a modpack is for.
#[derive(Clone, Copy, Debug, PartialEq, Eq, Structural)]
pub enum Game {
    Minecraft,
}

} // verus!
