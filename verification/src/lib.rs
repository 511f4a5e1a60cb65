pub mod add;
pub mod cli;
pub mod config;
pub mod download;
pub mod file_picker;
pub mod iter_ext;
pub mod labrinth;
pub mod modpack;
pub mod octorok;
pub mod order;
pub mod pattern;
pub mod resolve;
pub mod scan;
pub mod selection;
pub mod subcommands;
pub mod summary;
pub mod text;
pub mod upgrade;
pub mod util;
