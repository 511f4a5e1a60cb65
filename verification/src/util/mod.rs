//! Ferium's helpers for its first-time setup: errors, Mojang's version
//! manifest, the configuration file's records and the command line.
pub mod cli;
pub mod ferium_error;
pub mod json;
pub mod launchermeta;
pub mod wrappers;
