//! The command line as plain data. Parsing the real command line into
//! these values is the caller's side.

use vstd::prelude::*;

verus! {

/// The tool's arguments: directory overrides, a config file, kata names,
/// and an optional subcommand.
pub struct Args {
    /// Custom directory to copy katas from.
    pub katas_dir: Option<String>,
    /// Custom directory the day folders live in.
    pub days_dir: Option<String>,
    /// Custom config file.
    pub config_file: Option<String>,
    /// Katas to do today.
    pub kata_names_args: Option<Vec<String>>,
    pub subcommand: Option<KatacSubcommands>,
}

/// The tool's subcommands.
pub enum KatacSubcommands {
    /// Run katas of the current day, by name or all of them.
    Run { kata_names: Option<Vec<String>>, command: Option<String> },
    /// Pick katas at random from the config's list.
    Random { number_of_katas: u8 },
    /// Create a new kata.
    Add { kata_name: String },
    /// Work with workspaces.
    Workspace { subcommand: Option<WorkspaceSubcommands> },
}

/// The workspace subcommands.
pub enum WorkspaceSubcommands {
    /// Record a new workspace.
    Add { name: String, path: String, remote: Option<String> },
    /// List the workspaces' names.
    List,
    /// Remove a workspace.
    Remove { name: String },
    /// List the katas of one workspace.
    ListKatas { workspace_name: String },
    /// List the katas of every workspace.
    ListAllKatas,
}

} // verus!
