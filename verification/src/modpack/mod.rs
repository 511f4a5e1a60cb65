//! The formats of Modrinth and CurseForge modpacks.
pub mod curseforge;
pub mod modrinth;
