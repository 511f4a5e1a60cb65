//! The subcommand asked for on the command line.
use crate::add::opt_view;
use crate::text::{owned, str_eq};
use crate::util::ferium_error::FError;
use vstd::prelude::*;

verus! {

pub enum SubCommand {
    /// Check and add `mod_id` to profile
    Add {
        /// ID of the mod to add
        mod_id: String,
    },
    /// Check and add `owner` and `name` to profile
    AddRepo {
        /// Username of the owner of the repository to add
        owner: String,
        /// Name of the repository to add
        name: String,
    },
    /// Prompt user about which setting to configure, and let them change that setting
    Config,
    /// Create a new profile and add it to config
    Create,
    /// List mods and repos in the profile. Print more information if set to true (verbosity)
    List(bool),
    /// Remove one or more mods in the profile
    Remove,
    /// Switch to a different profile
    Switch,
    /// Download and install the latest version of mods and repos in the profile
    Upgrade,
}

/// The subcommand named `name`, with the flag `verbose` and the values
/// `first` and `second` of its arguments, as the parser matched them.
pub open spec fn subcommand_spec(
    name: Seq<char>,
    verbose: bool,
    first: Option<Seq<char>>,
    second: Option<Seq<char>>,
) -> Option<Option<SubCommandKind>> {
    if name == "list"@ {
        Some(Some(SubCommandKind::List(verbose)))
    } else if name == "upgrade"@ {
        Some(Some(SubCommandKind::Upgrade))
    } else if name == "add"@ {
        Some(
            match first {
                Some(m) => Some(SubCommandKind::Add(m)),
                None => None,
            },
        )
    } else if name == "add-repo"@ {
        Some(
            match (first, second) {
                (Some(o), Some(n)) => Some(SubCommandKind::AddRepo(o, n)),
                _ => None,
            },
        )
    } else if name == "remove"@ {
        Some(Some(SubCommandKind::Remove))
    } else if name == "config"@ {
        Some(Some(SubCommandKind::Config))
    } else if name == "create"@ {
        Some(Some(SubCommandKind::Create))
    } else if name == "switch"@ {
        Some(Some(SubCommandKind::Switch))
    } else {
        None
    }
}

/// A subcommand with its arguments as texts.
pub enum SubCommandKind {
    Add(Seq<char>),
    AddRepo(Seq<char>, Seq<char>),
    Config,
    Create,
    List(bool),
    Remove,
    Switch,
    Upgrade,
}

pub open spec fn subcommand_view(s: SubCommand) -> SubCommandKind {
    match s {
        SubCommand::Add { mod_id } => SubCommandKind::Add(mod_id@),
        SubCommand::AddRepo { owner, name } => SubCommandKind::AddRepo(owner@, name@),
        SubCommand::Config => SubCommandKind::Config,
        SubCommand::Create => SubCommandKind::Create,
        SubCommand::List(v) => SubCommandKind::List(v),
        SubCommand::Remove => SubCommandKind::Remove,
        SubCommand::Switch => SubCommandKind::Switch,
        SubCommand::Upgrade => SubCommandKind::Upgrade,
    }
}

/// Returns the subcommand (and its arguments) that needs to be executed: an
/// unknown subcommand quits with "Unknown subcommand", and a missing argument
/// is an `OptionError`.
pub fn get_subcommand(name: &str, verbose: bool, first: Option<String>, second: Option<String>) -> (r: Result<SubCommand, FError>)
    ensures
        match subcommand_spec(name@, verbose, opt_view(first), opt_view(second)) {
            Some(Some(k)) => r matches Ok(s) && subcommand_view(s) == k,
            Some(None) => r matches Err(e) && e is OptionError,
            None => r matches Err(e) && e matches FError::Quit { message } && message@ == "Unknown subcommand"@,
        },
{
    if str_eq(name, "list") {
        Ok(SubCommand::List(verbose))
    } else if str_eq(name, "upgrade") {
        Ok(SubCommand::Upgrade)
    } else if str_eq(name, "add") {
        match first {
            Some(mod_id) => Ok(SubCommand::Add { mod_id }),
            None => Err(FError::OptionError),
        }
    } else if str_eq(name, "add-repo") {
        match (first, second) {
            (Some(owner), Some(name)) => Ok(SubCommand::AddRepo { owner, name }),
            _ => Err(FError::OptionError),
        }
    } else if str_eq(name, "remove") {
        Ok(SubCommand::Remove)
    } else if str_eq(name, "config") {
        Ok(SubCommand::Config)
    } else if str_eq(name, "create") {
        Ok(SubCommand::Create)
    } else if str_eq(name, "switch") {
        Ok(SubCommand::Switch)
    } else {
        Err(FError::Quit { message: owned("Unknown subcommand") })
    }
}

} // verus!
