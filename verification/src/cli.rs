//! The command line: the sub-commands and their arguments.
use vstd::prelude::*;

verus! {

/// The parsed command line: a sub-command, or none to open the browser.
#[derive(Debug)]
pub struct Cli {
    pub command: Option<Commands>,
}

/// The sub-commands.
#[derive(Debug)]
pub enum Commands {
    /// Save a new command, in `folder` or in a folder asked for.
    Add { folder: Option<String> },
    /// Create a folder, under `parent` or at the root.
    NewFolder { name: String, parent: Option<String> },
    /// Edit the command with the given id.
    Edit { command_id: u32 },
    /// Delete the command with the given id.
    Delete { command_id: u32 },
    /// Compare with the remote store and take it over on request.
    Sync { force: bool },
    /// Show or change the configuration.
    Config(ConfigArgs),
    /// Print the path of a file.
    Where { target: WhereTarget },
    /// Install the shell integration.
    Install,
    /// Write the store to a file.
    Export { path: String },
    /// Replace the store by the one in a file, on request.
    Import { path: String },
}

/// The arguments of `config`: a change to make, or none to show it.
#[derive(Debug)]
pub struct ConfigArgs {
    pub subcommand: Option<ConfigSubcommand>,
}

/// The changes `config` can make.
#[derive(Debug)]
pub enum ConfigSubcommand {
    /// Set `key` to `value`.
    SetKey { key: String, value: String },
}

/// The files whose path `where` prints.
#[derive(Clone, Copy, Debug, PartialEq, Eq, Structural)]
pub enum WhereTarget {
    Config,
    Commands,
}

} // verus!
