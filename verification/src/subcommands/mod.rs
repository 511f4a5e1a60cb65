//! The decisions of ferium's commands, apart from what they read and show.
pub mod export;
pub mod list;
pub mod modpack;
pub mod profile;
pub mod remove;
pub mod upgrade;
