//! The description of a CurseForge modpack that its zip file holds.
use vstd::prelude::*;

verus! {

/// The manifest of a CurseForge modpack.
#[derive(Debug)]
pub struct Manifest {
    /// Information about how to setup Minecraft
    pub minecraft: Minecraft,
    /// The type of this manifest ??
    pub manifest_type: ManifestType,
    pub manifest_version: i32,
    pub name: String,
    pub version: String,
    pub author: String,
    /// The files this modpack needs
    pub files: Vec<ModpackFile>,
    /// A directory of overrides to install
    pub overrides: String,
}

/// The game version and mod loaders of a modpack.
#[derive(Debug)]
pub struct Minecraft {
    pub version: String,
    /// A list of mod loaders that can be used
    pub mod_loaders: Vec<ModpackModLoader>,
}

/// The type of a manifest.
#[derive(Clone, Copy, Debug, PartialEq, Eq, Structural)]
pub enum ManifestType {
    MinecraftModpack,
}

/// A file of a modpack: a file of a project on CurseForge.
#[derive(Clone, Copy, Debug, PartialEq, Eq, Structural)]
pub struct ModpackFile {
    pub project_id: i32,
    pub file_id: i32,
    pub required: bool,
}

/// A mod loader a modpack can be used with.
#[derive(Debug)]
pub struct ModpackModLoader {
    /// The name/ID of the mod loader
    pub id: String,
    /// Whether this is the recommended mod loader
    pub primary: bool,
}

} // verus!
