//! Katac: a kata-practice helper.
//!
//! The library holds the tool's logic: numbering of day folders, kata
//! path resolution, validation of kata names, planning of copy / run /
//! init / upgrade actions, and the workspace and config records. All
//! paths are modeled as `/`-separated strings. Reading directories,
//! copying files and launching processes is the caller's side; the
//! functions here take what was read and say exactly what to do with it.

use vstd::prelude::*;

pub mod actions;
pub mod args;
pub mod commands;
pub mod config;
pub mod config_file;
pub mod days;
pub mod global_config_file;
pub mod global_katas_file;
pub mod init;
pub mod local_config_file;
pub mod paths;
pub mod random;
pub mod repos;
pub mod state_file;
pub mod text;
pub mod upgrade;
pub mod workspaces;

verus! {

/// A kata: a named exercise directory.
pub struct Kata {
    pub name: String,
    pub path: String,
}

/// The tool's command line as plain data: directory overrides, a config
/// file, kata names to copy, and an optional subcommand.
pub struct Args {
    /// Custom directory to copy katas from.
    pub katas_dir: Option<String>,
    /// Custom directory the day folders live in.
    pub days_dir: Option<String>,
    /// Custom config file.
    pub config: Option<String>,
    pub subcommand: Option<Subcommands>,
    /// Katas to do today.
    pub kata_names: Vec<String>,
}

/// The tool's subcommands.
pub enum Subcommands {
    /// Set up katas chosen from the example templates.
    Init { examples_dir: Option<String>, select: Option<String> },
    /// Start a new day and copy the named katas into it.
    Start { kata_names: Vec<String> },
    /// Run katas of the current day, by name or all of them.
    Run { kata_names: Option<Vec<String>>, command: Option<String> },
    /// Create a new kata.
    New { kata_name: String },
    /// Pick katas at random from the config's list.
    Random { number_of_katas: u8 },
    /// Replace the installed tool with the latest release.
    Upgrade { force: bool },
}

impl Kata {
    /// An owned copy with the same fields.
    pub fn duplicate(&self) -> (r: Kata)
        ensures
            r == self,
    {
        Kata { name: self.name.clone(), path: self.path.clone() }
    }
}

/// The directory a run works with: the explicit argument wins, then the
/// environment's value, then the config file's entry, then the default.
pub fn get_dir(arg: &Option<String>, env: &Option<String>, config: &Option<String>, default: &str)
    -> (r: String)
    ensures
        r@ == (if arg is Some {
            arg->0@
        } else if env is Some {
            env->0@
        } else if config is Some {
            config->0@
        } else {
            default@
        }),
{
    match arg {
        Some(dir) => dir.clone(),
        None => match env {
            Some(dir) => dir.clone(),
            None => match config {
                Some(dir) => dir.clone(),
                None => String::from_str(default),
            },
        },
    }
}

} // verus!
